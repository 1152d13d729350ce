//! File metadata model and the pure rules around it: human-readable sizes,
//! `rwxr-xr-x`-style permission strings, date rendering, and the display
//! order of directory entries.

use vstd::prelude::*;
use chrono::TimeZone;
use vstd::string::StrSliceExecFns;
use crate::strutil::{push_char, chars_of, string_from_chars};
use crate::ssh::{find_last_exec, subvec};

verus! {

/// The character standing for one permission bit: the flag character when the
/// bit is set, `-` otherwise.
pub open spec fn spec_perm_char(on: bool, flag: char) -> char {
    if on {
        flag
    } else {
        '-'
    }
}

/// The three characters for one `rwx` group of a mode word.
pub open spec fn spec_rwx(bits: u32) -> Seq<char> {
    seq![
        spec_perm_char(bits & 0o4 != 0, 'r'),
        spec_perm_char(bits & 0o2 != 0, 'w'),
        spec_perm_char(bits & 0o1 != 0, 'x'),
    ]
}

/// The nine-character permission string of a Unix mode word: user, group and
/// other groups in that order.
pub open spec fn spec_unix_permissions(mode: u32) -> Seq<char> {
    spec_rwx((mode >> 6) & 0o7) + spec_rwx((mode >> 3) & 0o7) + spec_rwx(mode & 0o7)
}

/// Formats one `rwx` group of a mode word.
pub fn format_rwx(bits: u32) -> (r: String)
    ensures
        r@ == spec_rwx(bits),
{
    let mut r = String::new();
    push_char(&mut r, if bits & 0o4 != 0 { 'r' } else { '-' });
    push_char(&mut r, if bits & 0o2 != 0 { 'w' } else { '-' });
    push_char(&mut r, if bits & 0o1 != 0 { 'x' } else { '-' });
    proof {
        assert(r@ =~= spec_rwx(bits));
    }
    r
}

/// Formats a Unix mode word as the usual nine-character permission string.
pub fn format_unix_permissions(mode: u32) -> (r: String)
    ensures
        r@ == spec_unix_permissions(mode),
{
    let mut r = format_rwx((mode >> 6) & 0o7);
    let group = format_rwx((mode >> 3) & 0o7);
    let other = format_rwx(mode & 0o7);
    r.append(group.as_str());
    r.append(other.as_str());
    r
}

/// One kibibyte, as the size formatter scales.
pub const SIZE_KB: u64 = 1024;

/// One mebibyte.
pub const SIZE_MB: u64 = 1048576;

/// One gibibyte.
pub const SIZE_GB: u64 = 1073741824;

/// The decimal digit character for `d`, which must lie in 0..10.
pub open spec fn spec_digit_char(d: int) -> char {
    if d == 0 {
        '0'
    } else if d == 1 {
        '1'
    } else if d == 2 {
        '2'
    } else if d == 3 {
        '3'
    } else if d == 4 {
        '4'
    } else if d == 5 {
        '5'
    } else if d == 6 {
        '6'
    } else if d == 7 {
        '7'
    } else if d == 8 {
        '8'
    } else {
        '9'
    }
}

/// The decimal rendering of a non-negative number, most significant digit
/// first.
pub open spec fn spec_decimal(n: int) -> Seq<char>
    decreases n,
{
    if n < 10 {
        seq![spec_digit_char(n)]
    } else {
        spec_decimal(n / 10).push(spec_digit_char(n % 10))
    }
}

/// `10 * size / unit`, rounded to the nearest whole number with ties going
/// to the even neighbour: the number of tenths a scaled size shows.
pub open spec fn spec_tenths(size: int, unit: int) -> int {
    let num = 10 * size;
    let q = num / unit;
    let r = num % unit;
    if 2 * r > unit {
        q + 1
    } else if 2 * r < unit {
        q
    } else if q % 2 == 0 {
        q
    } else {
        q + 1
    }
}

/// A size scaled by `unit` and rendered with one decimal digit and the
/// unit's suffix, such as `1.5K`.
pub open spec fn spec_scaled(size: int, unit: int, suffix: char) -> Seq<char> {
    let t = spec_tenths(size, unit);
    spec_decimal(t / 10) + seq!['.', spec_digit_char(t % 10), suffix]
}

/// The human-readable rendering of a byte count: whole bytes below 1K, and
/// one decimal of the matching unit from there up.
pub open spec fn spec_file_size(size: int) -> Seq<char> {
    if size >= SIZE_GB as int {
        spec_scaled(size, SIZE_GB as int, 'G')
    } else if size >= SIZE_MB as int {
        spec_scaled(size, SIZE_MB as int, 'M')
    } else if size >= SIZE_KB as int {
        spec_scaled(size, SIZE_KB as int, 'K')
    } else {
        spec_decimal(size) + seq!['B']
    }
}

fn digit_char(d: u128) -> (c: char)
    requires
        d < 10,
    ensures
        c == spec_digit_char(d as int),
{
    if d == 0 {
        '0'
    } else if d == 1 {
        '1'
    } else if d == 2 {
        '2'
    } else if d == 3 {
        '3'
    } else if d == 4 {
        '4'
    } else if d == 5 {
        '5'
    } else if d == 6 {
        '6'
    } else if d == 7 {
        '7'
    } else if d == 8 {
        '8'
    } else {
        '9'
    }
}

/// Appends the decimal rendering of `n`.
pub fn push_decimal(out: &mut String, n: u128)
    ensures
        final(out)@ == old(out)@ + spec_decimal(n as int),
    decreases n,
{
    if n < 10 {
        push_char(out, digit_char(n));
        proof {
            assert(final(out)@ =~= old(out)@ + spec_decimal(n as int));
        }
    } else {
        push_decimal(out, n / 10);
        push_char(out, digit_char(n % 10));
        proof {
            assert(final(out)@ =~= old(out)@ + spec_decimal(n as int));
        }
    }
}

/// `10 * size / unit` rounded half-to-even, as `spec_tenths` describes.
fn tenths(size: u64, unit: u64) -> (t: u128)
    requires
        unit >= 1,
    ensures
        t as int == spec_tenths(size as int, unit as int),
{
    let num: u128 = (size as u128) * 10;
    let q: u128 = num / (unit as u128);
    let r: u128 = num % (unit as u128);
    if 2 * r > unit as u128 {
        q + 1
    } else if 2 * r < unit as u128 {
        q
    } else if q % 2 == 0 {
        q
    } else {
        q + 1
    }
}

fn format_scaled(size: u64, unit: u64, suffix: char) -> (r: String)
    requires
        unit >= 1,
    ensures
        r@ == spec_scaled(size as int, unit as int, suffix),
{
    let t = tenths(size, unit);
    let mut r = String::new();
    push_decimal(&mut r, t / 10);
    push_char(&mut r, '.');
    push_char(&mut r, digit_char(t % 10));
    push_char(&mut r, suffix);
    proof {
        assert(r@ =~= spec_scaled(size as int, unit as int, suffix));
    }
    r
}

/// Formats a byte count the way file listings show it, as `spec_file_size`
/// describes.
pub fn format_file_size(size: u64) -> (r: String)
    ensures
        r@ == spec_file_size(size as int),
{
    if size >= SIZE_GB {
        format_scaled(size, SIZE_GB, 'G')
    } else if size >= SIZE_MB {
        format_scaled(size, SIZE_MB, 'M')
    } else if size >= SIZE_KB {
        format_scaled(size, SIZE_KB, 'K')
    } else {
        let mut r = String::new();
        push_decimal(&mut r, size as u128);
        push_char(&mut r, 'B');
        proof {
            assert(r@ =~= spec_file_size(size as int));
        }
        r
    }
}

/// A file or directory entry as the panels hold it: plain metadata, with the
/// modification time as seconds since the Unix epoch.
#[derive(Debug, Clone)]
pub struct FileEntry {
    pub name: String,
    pub path: String,
    pub is_dir: bool,
    pub size: u64,
    pub modified: Option<i64>,
    pub permissions: u32,
}

/// Relies on chrono's `Local.timestamp_opt` and `DateTime::format`: renders
/// an epoch second in the machine's local zone as `YYYY-MM-DD HH:MM`. The
/// result depends on the zone, so nothing is promised of it.
#[verifier::external_body]
fn format_local_timestamp(secs: i64) -> String {
    let dt = match chrono::Local.timestamp_opt(secs, 0).single() {
        Some(dt) => dt,
        None => chrono::Local::now(),
    };
    dt.format("%Y-%m-%d %H:%M").to_string()
}

impl FileEntry {
    /// An equal copy of the entry.
    pub fn duplicate(&self) -> (r: FileEntry)
        ensures
            r == *self,
    {
        let r = FileEntry {
            name: self.name.clone(),
            path: self.path.clone(),
            is_dir: self.is_dir,
            size: self.size,
            modified: self.modified,
            permissions: self.permissions,
        };
        proof {
            assert(r =~= *self);
        }
        r
    }

    /// The size column: `<DIR>` for a directory, the formatted byte count
    /// otherwise.
    pub fn format_size(&self) -> (r: String)
        ensures
            self.is_dir ==> r@ == "<DIR>"@,
            !self.is_dir ==> r@ == spec_file_size(self.size as int),
    {
        if self.is_dir {
            String::from_str("<DIR>")
        } else {
            format_file_size(self.size)
        }
    }

    /// The date column: the local rendering of the modification time, empty
    /// where none is known.
    pub fn format_date(&self) -> (r: String)
        ensures
            self.modified is None ==> r@ == Seq::<char>::empty(),
    {
        match self.modified {
            Some(secs) => format_local_timestamp(secs),
            None => String::new(),
        }
    }

    /// The permission column.
    pub fn format_permissions(&self) -> (r: String)
        ensures
            r@ == spec_unix_permissions(self.permissions),
    {
        format_unix_permissions(self.permissions)
    }
}

/// Names what `str::to_lowercase` returns: the lowercase mapping depends on
/// the characters alone.
pub uninterp spec fn lower_of(s: Seq<char>) -> Seq<char>;

/// Relies on `str::to_lowercase`, to order names without regard to case.
#[verifier::external_body]
fn lowercase(s: &str) -> (r: String)
    ensures
        r@ == lower_of(s@),
{
    s.to_lowercase()
}

/// Lexicographic order on character sequences, by code point.
pub open spec fn lex_le(a: Seq<char>, b: Seq<char>) -> bool
    decreases a.len(),
{
    if a.len() == 0 {
        true
    } else if b.len() == 0 {
        false
    } else if a[0] != b[0] {
        (a[0] as int) < (b[0] as int)
    } else {
        lex_le(a.drop_first(), b.drop_first())
    }
}

/// The display order of two entries: `..` stands first, directories before
/// files, and within a group names compare case-folded.
pub open spec fn entry_le(a: FileEntry, b: FileEntry) -> bool {
    if a.name@ == ".."@ {
        true
    } else if b.name@ == ".."@ {
        false
    } else if a.is_dir != b.is_dir {
        a.is_dir
    } else {
        lex_le(lower_of(a.name@), lower_of(b.name@))
    }
}

/// Where two sequences first differ decides their lexicographic order.
proof fn lemma_lex_le_at(a: Seq<char>, b: Seq<char>, k: int)
    requires
        0 <= k < a.len(),
        k < b.len(),
        forall|i: int| 0 <= i < k ==> a[i] == b[i],
        a[k] != b[k],
    ensures
        lex_le(a, b) == ((a[k] as int) < (b[k] as int)),
    decreases k,
{
    if k > 0 {
        assert(forall|i: int|
            0 <= i < a.drop_first().len() ==> a.drop_first()[i] == a[i + 1]);
        assert(forall|i: int|
            0 <= i < b.drop_first().len() ==> b.drop_first()[i] == b[i + 1]);
        lemma_lex_le_at(a.drop_first(), b.drop_first(), k - 1);
    }
}

/// A sequence precedes another exactly when it is a prefix of it, where no
/// position differs up to the shorter length.
proof fn lemma_lex_le_prefix(a: Seq<char>, b: Seq<char>, k: int)
    requires
        0 <= k,
        k == (if a.len() < b.len() { a.len() as int } else { b.len() as int }),
        forall|i: int| 0 <= i < k ==> a[i] == b[i],
    ensures
        lex_le(a, b) == (a.len() <= b.len()),
    decreases k,
{
    if k > 0 {
        assert(forall|i: int|
            0 <= i < a.drop_first().len() ==> a.drop_first()[i] == a[i + 1]);
        assert(forall|i: int|
            0 <= i < b.drop_first().len() ==> b.drop_first()[i] == b[i + 1]);
        lemma_lex_le_prefix(a.drop_first(), b.drop_first(), k - 1);
    }
}

/// One of two sequences always precedes the other.
proof fn lemma_lex_le_total(a: Seq<char>, b: Seq<char>)
    ensures
        lex_le(a, b) || lex_le(b, a),
    decreases a.len(),
{
    if a.len() > 0 && b.len() > 0 && a[0] == b[0] {
        lemma_lex_le_total(a.drop_first(), b.drop_first());
    }
}

/// Decides `lex_le` on two strings.
fn lex_le_exec(a: &str, b: &str) -> (r: bool)
    ensures
        r == lex_le(a@, b@),
{
    let alen = a.unicode_len();
    let blen = b.unicode_len();
    let mut i: usize = 0;
    while i < alen && i < blen
        invariant
            i <= alen,
            i <= blen,
            alen == a@.len(),
            blen == b@.len(),
            forall|j: int| 0 <= j < i as int ==> a@[j] == b@[j],
        decreases alen - i,
    {
        let ca = a.get_char(i);
        let cb = b.get_char(i);
        if ca != cb {
            proof {
                lemma_lex_le_at(a@, b@, i as int);
            }
            return (ca as u32) < (cb as u32);
        }
        i = i + 1;
    }
    proof {
        lemma_lex_le_prefix(a@, b@, i as int);
    }
    alen <= blen
}

/// Decides whether a name is the parent-directory entry `..`.
pub fn is_dotdot(s: &str) -> (r: bool)
    ensures
        r == (s@ == ".."@),
{
    proof {
        reveal_strlit("..");
    }
    let len = s.unicode_len();
    if len != 2 {
        return false;
    }
    let r = s.get_char(0) == '.' && s.get_char(1) == '.';
    proof {
        if r {
            assert(s@ =~= ".."@);
        }
    }
    r
}

/// Decides the display order of two entries, as a comparator: `Equal` where
/// each may stand before the other.
fn entry_cmp(a: &FileEntry, b: &FileEntry) -> (r: core::cmp::Ordering)
    ensures
        (r is Less || r is Equal) == entry_le(*a, *b),
        (r is Greater || r is Equal) == entry_le(*b, *a),
{
    let a_dot = is_dotdot(a.name.as_str());
    let b_dot = is_dotdot(b.name.as_str());
    if a_dot && b_dot {
        core::cmp::Ordering::Equal
    } else if a_dot {
        core::cmp::Ordering::Less
    } else if b_dot {
        core::cmp::Ordering::Greater
    } else if a.is_dir && !b.is_dir {
        core::cmp::Ordering::Less
    } else if !a.is_dir && b.is_dir {
        core::cmp::Ordering::Greater
    } else {
        let la = lowercase(a.name.as_str());
        let lb = lowercase(b.name.as_str());
        let ab = lex_le_exec(la.as_str(), lb.as_str());
        let ba = lex_le_exec(lb.as_str(), la.as_str());
        proof {
            lemma_lex_le_total(lower_of(a.name@), lower_of(b.name@));
        }
        if ab && ba {
            core::cmp::Ordering::Equal
        } else if ab {
            core::cmp::Ordering::Less
        } else {
            core::cmp::Ordering::Greater
        }
    }
}

/// Relies on `<[FileEntry]>::sort_by`: a stable sort by the comparator, so
/// the result holds exactly the same entries, pairwise in order. The
/// comparator is a total preorder, which the sort requires.
#[verifier::external_body]
fn sort_by_display_order(entries: &mut Vec<FileEntry>)
    ensures
        final(entries)@.len() == old(entries)@.len(),
        final(entries)@.to_multiset() == old(entries)@.to_multiset(),
        forall|i: int, j: int|
            0 <= i < j < final(entries)@.len() ==> entry_le(
                #[trigger] final(entries)@[i],
                #[trigger] final(entries)@[j],
            ),
{
    entries.sort_by(|a, b| entry_cmp(a, b));
}

/// Puts directory entries in display order: `..` first, then directories,
/// then files, each group ordered by case-folded name.
pub fn sort_entries(entries: &mut Vec<FileEntry>)
    ensures
        final(entries)@.len() == old(entries)@.len(),
        final(entries)@.to_multiset() == old(entries)@.to_multiset(),
        forall|i: int, j: int|
            0 <= i < j < final(entries)@.len() ==> entry_le(
                #[trigger] final(entries)@[i],
                #[trigger] final(entries)@[j],
            ),
{
    sort_by_display_order(entries);
}

/// The local file system, as the panels name it; its listing and stat calls
/// live with the surrounding I/O code.
#[derive(Debug, Clone)]
pub struct LocalFileSystem;

impl LocalFileSystem {
    pub fn new() -> LocalFileSystem {
        LocalFileSystem
    }
}

impl Default for LocalFileSystem {
    fn default() -> LocalFileSystem {
        LocalFileSystem::new()
    }
}

/// A path joined with a name below it: a `/` separates them unless the
/// directory already ends in one.
pub open spec fn spec_join_path(dir: Seq<char>, name: Seq<char>) -> Seq<char> {
    if dir.len() > 0 && dir.last() == '/' {
        dir + name
    } else {
        dir + seq!['/'] + name
    }
}

/// Joins a directory path and a file name, as `spec_join_path` describes.
pub fn join_path(dir: &str, name: &str) -> (r: String)
    ensures
        r@ == spec_join_path(dir@, name@),
{
    let mut r = String::new();
    r.append(dir);
    let dlen = dir.unicode_len();
    if dlen == 0 || dir.get_char(dlen - 1) != '/' {
        push_char(&mut r, '/');
    }
    r.append(name);
    proof {
        assert(r@ =~= spec_join_path(dir@, name@));
    }
    r
}

/// The parent of a path: everything before the last `/`, the root for a
/// top-level entry, and nothing for the root itself or a bare name.
pub open spec fn spec_parent_path(p: Seq<char>) -> Option<Seq<char>> {
    let i = crate::ssh::find_last(p, '/');
    if p =~= seq!['/'] {
        None
    } else if i < 0 {
        None
    } else if i == 0 {
        Some(seq!['/'])
    } else {
        Some(p.take(i))
    }
}

/// The parent of a path, as `spec_parent_path` describes.
pub fn parent_path(p: &str) -> (r: Option<String>)
    ensures
        match r {
            Some(s) => spec_parent_path(p@) == Some(s@),
            None => spec_parent_path(p@) is None,
        },
{
    proof {
        reveal_strlit("/");
    }
    let chars = chars_of(p);
    if chars.len() == 1 && chars[0] == '/' {
        proof {
            assert(p@ =~= seq!['/']);
        }
        return None;
    }
    proof {
        assert(!(p@ =~= seq!['/']));
    }
    match find_last_exec(&chars, '/') {
        None => None,
        Some(i) => {
            if i == 0 {
                let root = String::from_str("/");
                proof {
                    assert(root@ =~= seq!['/']);
                }
                Some(root)
            } else {
                let head = subvec(&chars, 0, i);
                proof {
                    assert(head@ =~= p@.take(i as int));
                }
                Some(string_from_chars(&head))
            }
        },
    }
}

} // verus!
