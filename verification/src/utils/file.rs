//! File names, sizes, permission strings and content hashes.

use vstd::prelude::*;
use vstd::string::*;
use vstd::arithmetic::div_mod::*;
use vstd::arithmetic::mul::*;
use crate::config::{texts, HISTORY_FILE};
use crate::outside::{lowercase_of, sha256_hex, sha256_hex_digest, to_lowercase};
use crate::text::{
    chars_of, decimal, digit_char, digit_text, ends_with, is_last_index_of, join_text,
    last_index_of, slice_text, u64_to_decimal,
};

verus! {

pub struct FileUtils;

/// The letter that stands at position `k` of a permission string when the
/// permission is granted.
pub open spec fn permission_letter(k: int) -> char {
    if k % 3 == 0 {
        'r'
    } else if k % 3 == 1 {
        'w'
    } else {
        'x'
    }
}

/// Character `k` of the permission string of `mode`: position 0 is the
/// owner's read bit (bit 8 of the mode), position 8 is execute for others
/// (bit 0).
pub open spec fn permission_char(mode: u32, k: int) -> char {
    if mode & (1u32 << ((8 - k) as u32)) != 0 {
        permission_letter(k)
    } else {
        '-'
    }
}

/// The `rwxrwxrwx` rendering of the low nine bits of `mode`.
pub open spec fn permissions_text(mode: u32) -> Seq<char> {
    Seq::new(9, |k: int| permission_char(mode, k))
}

/// The `rwx` rendering of the low three bits of `part`.
pub open spec fn mode_part_text(part: u32) -> Seq<char> {
    Seq::new(3, |k: int| permission_char(part, 6 + k))
}

/// `a / b` rounded to the nearest integer, a tie going to the even one.
pub open spec fn round_half_even(a: nat, b: nat) -> nat
    recommends
        b > 0,
{
    let q = a / b;
    let r = a % b;
    if 2 * r > b || (2 * r == b && q % 2 == 1) {
        q + 1
    } else {
        q
    }
}

/// The distance between neighbouring numbers that can be held with 53
/// significant binary digits, around `n`: 1 below 2^53, doubling with each
/// further digit.
pub open spec fn binary_step(n: nat) -> nat
    decreases n,
{
    if n < 9007199254740992 {
        1
    } else {
        2 * binary_step(n / 2)
    }
}

/// `n` rounded to 53 significant binary digits, a tie going to the even
/// neighbour. Sizes are measured in this precision before they are scaled.
pub open spec fn rounded_to_53_bits(n: nat) -> nat {
    round_half_even(n, binary_step(n)) * binary_step(n)
}

/// `h` hundredths written with two decimals: `123` is `1.23`.
pub open spec fn two_decimals(h: nat) -> Seq<char> {
    decimal(h / 100) + seq!['.', digit_char(h / 10 % 10), digit_char(h % 10)]
}

/// `size` bytes counted in `unit`s, in hundredths, rounded half to even.
pub open spec fn scaled_hundredths(size: u64, unit: nat) -> nat {
    round_half_even(rounded_to_53_bits(size as nat) * 100, unit)
}

pub const KB: u64 = 1024;

pub const MB: u64 = 1048576;

pub const GB: u64 = 1073741824;

/// The human-readable form of a size in bytes: below 1024 the exact count
/// followed by ` bytes`; otherwise the count in the largest of KB, MB and
/// GB that it reaches, with two decimals.
pub open spec fn size_text(size: u64) -> Seq<char> {
    if size >= GB {
        two_decimals(scaled_hundredths(size, GB as nat)) + " GB"@
    } else if size >= MB {
        two_decimals(scaled_hundredths(size, MB as nat)) + " MB"@
    } else if size >= KB {
        two_decimals(scaled_hundredths(size, KB as nat)) + " KB"@
    } else {
        decimal(size as nat) + " bytes"@
    }
}

/// The position of the last `.` of `name`, if it has one.
pub open spec fn last_dot(name: Seq<char>) -> Option<int> {
    if exists|i: int| is_last_index_of(name, '.', i) {
        Some(choose|i: int| is_last_index_of(name, '.', i))
    } else {
        None
    }
}

/// What follows the last `.` of `name`; all of `name` when it has no `.`.
pub open spec fn last_segment(name: Seq<char>) -> Seq<char> {
    match last_dot(name) {
        Some(i) => name.skip(i + 1),
        None => name,
    }
}

/// What precedes the last `.` of `name`; all of `name` when it has no `.`.
pub open spec fn stem(name: Seq<char>) -> Seq<char> {
    match last_dot(name) {
        Some(i) => name.take(i),
        None => name,
    }
}

/// The suffix of a file name: its last segment in lower case.
pub open spec fn file_suffix(name: Seq<char>) -> Seq<char> {
    lowercase_of(last_segment(name))
}

/// A character has one last occurrence at most.
pub proof fn lemma_last_index_unique(s: Seq<char>, c: char, i: int, j: int)
    requires
        is_last_index_of(s, c, i),
        is_last_index_of(s, c, j),
    ensures
        i == j,
{
    if i < j {
        assert(s.skip(i + 1)[j - i - 1] == c);
    } else if j < i {
        assert(s.skip(j + 1)[i - j - 1] == c);
    }
}

/// `last_dot` is `Some(i)` exactly for the last occurrence, and `None`
/// exactly when there is no `.`.
pub proof fn lemma_last_dot(name: Seq<char>)
    ensures
        match last_dot(name) {
            Some(i) => is_last_index_of(name, '.', i),
            None => !name.contains('.'),
        },
        forall|i: int| is_last_index_of(name, '.', i) ==> last_dot(name) == Some(i),
{
    assert forall|i: int| is_last_index_of(name, '.', i) implies last_dot(name) == Some(i) by {
        let j = choose|j: int| is_last_index_of(name, '.', j);
        lemma_last_index_unique(name, '.', i, j);
    }
    if last_dot(name) is None && name.contains('.') {
        lemma_has_last_index(name, '.');
    }
}

/// A character that occurs has a last occurrence.
pub proof fn lemma_has_last_index(s: Seq<char>, c: char)
    requires
        s.contains(c),
    ensures
        exists|i: int| is_last_index_of(s, c, i),
    decreases s.len(),
{
    let k = choose|k: int| 0 <= k < s.len() && s[k] == c;
    let rest = s.skip(k + 1);
    if rest.contains(c) {
        lemma_has_last_index(rest, c);
        let i = choose|i: int| is_last_index_of(rest, c, i);
        assert(rest.skip(i + 1) =~= s.skip(k + 1 + i + 1));
        assert(is_last_index_of(s, c, k + 1 + i));
    } else {
        assert(is_last_index_of(s, c, k));
    }
}

/// The path of the entry called `name` in the directory `dir`.
pub open spec fn path_in(dir: Seq<char>, name: Seq<char>) -> Seq<char> {
    if dir.len() > 0 && dir.last() == '/' {
        dir + name
    } else {
        dir + seq!['/'] + name
    }
}

/// The entries of `entries` (path and time of last modification, in
/// seconds) that a sweep at `yesterday_end` removes: those last modified at
/// or before that moment, but for the history index.
pub open spec fn stale_paths(entries: Seq<(Seq<char>, int)>, yesterday_end: int) -> Seq<
    Seq<char>,
> {
    entries.filter(|e: (Seq<char>, int)| is_stale(e.0, e.1, yesterday_end)).map_values(
        |e: (Seq<char>, int)| e.0,
    )
}

/// Whether a sweep at `yesterday_end` removes the entry at `path`.
pub open spec fn is_stale(path: Seq<char>, modified: int, yesterday_end: int) -> bool {
    !HISTORY_FILE@.is_suffix_of(path) && modified <= yesterday_end
}

/// The paths and modification times of `entries`, as plain values.
pub open spec fn entry_views(entries: Seq<(String, i64)>) -> Seq<(Seq<char>, int)> {
    entries.map_values(|e: (String, i64)| (e.0@, e.1 as int))
}

impl FileUtils {
    /// Renders three permission bits as `rwx`, with `-` for each bit that
    /// is not set.
    pub fn format_mode_part(part: u32) -> (out: String)
        ensures
            out@ == mode_part_text(part),
    {
        proof {
            reveal_strlit("-");
            reveal_strlit("r");
            reveal_strlit("w");
            reveal_strlit("x");
        }
        let mut out = String::new();
        out.append(if (part & 0o4) == 0 { "-" } else { "r" });
        out.append(if (part & 0o2) == 0 { "-" } else { "w" });
        out.append(if (part & 0o1) == 0 { "-" } else { "x" });
        assert(1u32 << 2u32 == 4 && 1u32 << 1u32 == 2 && 1u32 << 0u32 == 1) by (bit_vector);
        assert(out@ =~= mode_part_text(part));
        out
    }

    /// Renders the low nine bits of a file mode as `rwxrwxrwx`.
    pub fn format_permissions(mode: u32) -> (out: String)
        ensures
            out@ == permissions_text(mode),
    {
        let user = Self::format_mode_part((mode >> 6) & 0o7);
        let group = Self::format_mode_part((mode >> 3) & 0o7);
        let others = Self::format_mode_part(mode & 0o7);
        let mut out = user;
        out.append(group.as_str());
        out.append(others.as_str());
        proof {
            let u = (mode >> 6) & 7;
            let g = (mode >> 3) & 7;
            let o = mode & 7;
            assert(1u32 << 8u32 == 256 && 1u32 << 7u32 == 128 && 1u32 << 6u32 == 64 && 1u32
                << 5u32 == 32 && 1u32 << 4u32 == 16 && 1u32 << 3u32 == 8 && 1u32 << 2u32 == 4
                && 1u32 << 1u32 == 2 && 1u32 << 0u32 == 1) by (bit_vector);
            assert((u & 4 != 0) == (mode & 256 != 0) && (u & 2 != 0) == (mode & 128 != 0) && (u
                & 1 != 0) == (mode & 64 != 0)) by (bit_vector)
                requires
                    u == (mode >> 6) & 7,
            ;
            assert((g & 4 != 0) == (mode & 32 != 0) && (g & 2 != 0) == (mode & 16 != 0) && (g
                & 1 != 0) == (mode & 8 != 0)) by (bit_vector)
                requires
                    g == (mode >> 3) & 7,
            ;
            assert((o & 4 != 0) == (mode & 4 != 0) && (o & 2 != 0) == (mode & 2 != 0) && (o & 1
                != 0) == (mode & 1 != 0)) by (bit_vector)
                requires
                    o == mode & 7,
            ;
            assert(out@ =~= permissions_text(mode));
        }
        out
    }

    /// Rounds `size` to 53 significant binary digits.
    fn round_to_53_bits(size: u64) -> (v: u128)
        ensures
            v == rounded_to_53_bits(size as nat),
    {
        let mut step: u64 = 1;
        let mut n: u64 = size;
        while n >= 9007199254740992
            invariant
                step >= 1,
                step * n <= size,
                n == size / step,
                binary_step(size as nat) == step * binary_step(n as nat),
            decreases n,
        {
            proof {
                assert(step * 9007199254740992 <= step * n) by (nonlinear_arith)
                    requires
                        n >= 9007199254740992,
                        step >= 1,
                ;
                lemma_div_denominator(size as int, step as int, 2);
                assert(step * 2 * (n / 2) <= step * n) by (nonlinear_arith)
                    requires
                        step >= 1,
                ;
                assert(step * (2 * binary_step(n as nat / 2)) == (step * 2) * binary_step(
                    n as nat / 2,
                )) by (nonlinear_arith);
            }
            step = step * 2;
            n = n / 2;
        }
        let q = size / step;
        let r = size % step;
        let up: u64 = if r > step - r || (r == step - r && q % 2 == 1) {
            1
        } else {
            0
        };
        proof {
            assert(binary_step(n as nat) == 1);
            assert(binary_step(size as nat) == step) by (nonlinear_arith)
                requires
                    binary_step(size as nat) == step * binary_step(n as nat),
                    binary_step(n as nat) == 1,
            ;
            assert(round_half_even(size as nat, step as nat) == q + up);
            assert(q * step <= size) by {
                lemma_fundamental_div_mod(size as int, step as int);
                lemma_mul_is_commutative(q as int, step as int);
            }
            assert((q + up) * step <= size + step) by (nonlinear_arith)
                requires
                    q * step <= size,
                    up <= 1,
            ;
        }
        ((q + up) as u128) * (step as u128)
    }

    /// `a / b` rounded to the nearest integer, a tie going to the even one.
    fn divide_half_even(a: u128, b: u64) -> (h: u128)
        requires
            b > 0,
            a < u128::MAX,
        ensures
            h == round_half_even(a as nat, b as nat),
    {
        let q = a / (b as u128);
        let r = a % (b as u128);
        if r > (b as u128) - r || (r == (b as u128) - r && q % 2 == 1) {
            q + 1
        } else {
            q
        }
    }

    /// Writes `h` hundredths with two decimals.
    fn format_hundredths(h: u64) -> (out: String)
        ensures
            out@ == two_decimals(h as nat),
    {
        proof {
            reveal_strlit(".");
        }
        let mut out = u64_to_decimal(h / 100);
        out.append(".");
        out.append(digit_text(h / 10 % 10));
        out.append(digit_text(h % 10));
        assert(out@ =~= two_decimals(h as nat));
        out
    }

    /// Counts `size` in `unit`s and writes the count with two decimals.
    fn format_scaled(size: u64, unit: u64) -> (out: String)
        requires
            unit >= 1024,
        ensures
            out@ == two_decimals(scaled_hundredths(size, unit as nat)),
    {
        let v = Self::round_to_53_bits(size);
        proof {
            Self::lemma_rounded_bound(size as nat);
        }
        let h = Self::divide_half_even(v * 100, unit);
        proof {
            let a = (v * 100) as nat;
            let b = unit as nat;
            lemma_fundamental_div_mod(a as int, b as int);
            assert(a / b <= a) by {
                lemma_div_is_ordered_by_denominator(a as int, 1, b as int);
            }
            assert((a / b) * 1024 <= a) by (nonlinear_arith)
                requires
                    b >= 1024,
                    a == b * (a / b) + a % b,
                    a % b >= 0,
            ;
        }
        Self::format_hundredths(h as u64)
    }

    /// Rounding to 53 significant digits moves a 64-bit size by less than
    /// a factor of two.
    proof fn lemma_rounded_bound(n: nat)
        requires
            n <= u64::MAX,
        ensures
            rounded_to_53_bits(n) <= 2 * n,
            rounded_to_53_bits(n) <= 0x1_0000_0000_0000_0000,
    {
        Self::lemma_step_bound(n);
        let s = binary_step(n);
        lemma_fundamental_div_mod(n as int, s as int);
        let q = n / s;
        assert(round_half_even(n, s) <= q + 1);
        assert(q * s <= n) by {
            lemma_mul_is_commutative(q as int, s as int);
        }
        assert((q + 1) * s <= n + s) by (nonlinear_arith)
            requires
                q * s <= n,
        ;
        assert(round_half_even(n, s) * s <= (q + 1) * s) by (nonlinear_arith)
            requires
                round_half_even(n, s) <= q + 1,
        ;
        if s == 1 {
            assert(n % 1 == 0);
            assert(round_half_even(n, 1) == n);
        } else {
            // Above 2^53 the value is rounded within a grid of at most 2048,
            // whose points below 2^64 are at most 2^64 - step apart from the top.
            assert(round_half_even(n, s) * s <= n + s);
            Self::lemma_grid_top(n, s);
        }
    }

    /// The step around `n` is a power of two that is at most `n / 2^52`.
    proof fn lemma_step_bound(n: nat)
        ensures
            binary_step(n) >= 1,
            binary_step(n) == 1 <==> n < 9007199254740992,
            binary_step(n) > 1 ==> binary_step(n) * 4503599627370496 <= n,
            binary_step(n) > 1 ==> n < binary_step(n) * 9007199254740992,
        decreases n,
    {
        if n >= 9007199254740992 {
            Self::lemma_step_bound(n / 2);
            let t = binary_step(n / 2);
            if t == 1 {
                assert(n / 2 < 9007199254740992);
            } else {
                assert(2 * t * 4503599627370496 <= n) by (nonlinear_arith)
                    requires
                        t * 4503599627370496 <= n / 2,
                ;
                assert(n < 2 * t * 9007199254740992) by (nonlinear_arith)
                    requires
                        n / 2 < t * 9007199254740992,
                ;
            }
        }
    }

    /// A 64-bit value rounded on a grid of step `s` stays within 2^64, for
    /// 2^64 is itself a point of the grid.
    proof fn lemma_grid_top(n: nat, s: nat)
        requires
            n <= u64::MAX,
            s == binary_step(n),
            s > 1,
        ensures
            round_half_even(n, s) * s <= 0x1_0000_0000_0000_0000,
            round_half_even(n, s) * s <= 2 * n,
    {
        Self::lemma_step_bound(n);
        lemma_fundamental_div_mod(n as int, s as int);
        let q = n / s;
        let r = n % s;
        assert(s * q + r == n);
        assert(q < 9007199254740992) by (nonlinear_arith)
            requires
                s * q + r == n,
                r >= 0,
                n < s * 9007199254740992,
                s > 0,
        ;
        let h = round_half_even(n, s);
        assert(h <= 9007199254740992);
        assert(s <= 4095) by (nonlinear_arith)
            requires
                s * 4503599627370496 <= n,
                n <= 0xffff_ffff_ffff_ffff,
        ;
        Self::lemma_step_power(n);
        assert(h * s <= 9007199254740992 * s) by (nonlinear_arith)
            requires
                h <= 9007199254740992,
        ;
        assert(9007199254740992 * s <= 0x1_0000_0000_0000_0000) by (nonlinear_arith)
            requires
                s <= 2048,
        ;
        assert(q >= 1) by (nonlinear_arith)
            requires
                s * q + r == n,
                r < s,
                s * 4503599627370496 <= n,
                s > 0,
        ;
        assert(h * s <= (q + 1) * s) by (nonlinear_arith)
            requires
                h <= q + 1,
        ;
        assert((q + 1) * s <= 2 * n) by (nonlinear_arith)
            requires
                s * q + r == n,
                r >= 0,
                q >= 1,
                s > 0,
        ;
    }

    /// The step is a power of two: the powers of two up to 2048 are the
    /// only values it takes below 4096.
    proof fn lemma_step_power(n: nat)
        ensures
            binary_step(n) >= 1,
            binary_step(n) <= 4095 ==> binary_step(n) <= 2048,
            binary_step(n) <= 2047 ==> binary_step(n) <= 1024,
            binary_step(n) <= 1023 ==> binary_step(n) <= 512,
            binary_step(n) <= 511 ==> binary_step(n) <= 256,
            binary_step(n) <= 255 ==> binary_step(n) <= 128,
            binary_step(n) <= 127 ==> binary_step(n) <= 64,
            binary_step(n) <= 63 ==> binary_step(n) <= 32,
            binary_step(n) <= 31 ==> binary_step(n) <= 16,
            binary_step(n) <= 15 ==> binary_step(n) <= 8,
            binary_step(n) <= 7 ==> binary_step(n) <= 4,
            binary_step(n) <= 3 ==> binary_step(n) <= 2,
        decreases n,
    {
        if n >= 9007199254740992 {
            Self::lemma_step_power(n / 2);
        }
    }

    /// Renders a size in bytes for display.
    pub fn convert_size(size: u64) -> (out: String)
        ensures
            out@ == size_text(size),
    {
        if size >= GB {
            let mut out = Self::format_scaled(size, GB);
            out.append(" GB");
            out
        } else if size >= MB {
            let mut out = Self::format_scaled(size, MB);
            out.append(" MB");
            out
        } else if size >= KB {
            let mut out = Self::format_scaled(size, KB);
            out.append(" KB");
            out
        } else {
            let mut out = u64_to_decimal(size);
            out.append(" bytes");
            out
        }
    }

    /// The suffix of a file name: what follows its last `.`, in lower case.
    /// A name without a `.` is its own suffix.
    pub fn get_file_suffix(file_name: &str) -> (suffix: String)
        ensures
            suffix@ == file_suffix(file_name@),
    {
        let chars = chars_of(file_name);
        proof {
            lemma_last_dot(file_name@);
        }
        match last_index_of(&chars, '.') {
            Some(i) => {
                assert(i < chars.len());
                let tail = file_name.substring_char(i + 1, chars.len());
                to_lowercase(tail)
            },
            None => to_lowercase(file_name),
        }
    }

    /// The name of a file without its suffix: what precedes its last `.`.
    /// A name without a `.` is returned whole.
    pub fn get_file_prefix(file_name: &str) -> (prefix: String)
        ensures
            prefix@ == stem(file_name@),
    {
        let chars = chars_of(file_name);
        proof {
            lemma_last_dot(file_name@);
        }
        match last_index_of(&chars, '.') {
            Some(i) => slice_text(file_name, 0, i),
            None => file_name.to_owned(),
        }
    }

    /// The path of the entry called `name` in the directory `dir`.
    pub fn join_path(dir: &str, name: &str) -> (path: String)
        ensures
            path@ == path_in(dir@, name@),
    {
        proof {
            reveal_strlit("/");
        }
        if ends_with(dir, "/") {
            let path = join_text(dir, name);
            assert("/"@.is_suffix_of(dir@) ==> dir@.len() > 0 && dir@.last() == '/') by {
                if "/"@.is_suffix_of(dir@) {
                    assert(dir@.subrange(dir@.len() - 1, dir@.len() as int)[0] == '/');
                }
            }
            path
        } else {
            assert(!(dir@.len() > 0 && dir@.last() == '/')) by {
                if dir@.len() > 0 && dir@.last() == '/' {
                    assert(dir@.subrange(dir@.len() - 1, dir@.len() as int) =~= "/"@);
                }
            }
            let head = join_text(dir, "/");
            let path = join_text(head.as_str(), name);
            assert(path@ =~= dir@ + seq!['/'] + name@);
            path
        }
    }

    /// The directory in which the preview of the item called `name` is
    /// kept, below the directory `program_dir` that holds all previews.
    /// The same name always gives the same directory.
    pub fn create_temp_dir(program_dir: &str, name: &str) -> (path: String)
        ensures
            path@ == path_in(program_dir@, name@),
    {
        Self::join_path(program_dir, name)
    }

    /// The hash by which two copies of a file are compared: the SHA-256
    /// digest of the content in hexadecimal, and the empty string for an
    /// empty file.
    pub fn get_file_hash(buffer: &Vec<u8>) -> (hash: String)
        ensures
            hash@ == content_hash(buffer@),
            hash@.len() == if buffer@.len() == 0 {
                0nat
            } else {
                64nat
            },
    {
        if buffer.is_empty() {
            return String::new();
        }
        sha256_hex_digest(buffer)
    }

    /// Picks, from the entries of the cache directory, those that a sweep
    /// removes: every entry last modified at or before `yesterday_end`,
    /// except the history index. The order of the entries is kept.
    pub fn clear_yesterdays_dirs(entries: &Vec<(String, i64)>, yesterday_end: i64) -> (stale: Vec<
        String,
    >)
        ensures
            texts(stale@) == stale_paths(entry_views(entries@), yesterday_end as int),
    {
        let ghost keep = |e: (Seq<char>, int)| is_stale(e.0, e.1, yesterday_end as int);
        let ghost path_of = |e: (Seq<char>, int)| e.0;
        let mut stale: Vec<String> = Vec::new();
        let mut i: usize = 0;
        proof {
            assert(entry_views(entries@).take(0) =~= Seq::<(Seq<char>, int)>::empty());
            assert(texts(stale@) =~= entry_views(entries@).take(0).filter(
                keep,
            ).map_values(path_of));
        }
        while i < entries.len()
            invariant
                i <= entries@.len(),
                keep == |e: (Seq<char>, int)| is_stale(e.0, e.1, yesterday_end as int),
                path_of == |e: (Seq<char>, int)| e.0,
                texts(stale@) == entry_views(entries@).take(i as int).filter(
                    keep,
                ).map_values(path_of),
            decreases entries@.len() - i,
        {
            let entry = &entries[i];
            let is_history = ends_with(entry.0.as_str(), HISTORY_FILE);
            proof {
                let all = entry_views(entries@);
                let next = all.take(i + 1);
                assert(next.drop_last() =~= all.take(i as int));
                assert(next.last() == (entry.0@, entry.1 as int));
                reveal(Seq::filter);
                assert(next.filter(keep) == if keep(next.last()) {
                    all.take(i as int).filter(keep).push(next.last())
                } else {
                    all.take(i as int).filter(keep)
                });
            }
            if !is_history && entry.1 <= yesterday_end {
                let ghost before = stale@;
                stale.push(entry.0.clone());
                proof {
                    let all = entry_views(entries@);
                    let kept = all.take(i as int).filter(keep);
                    assert(kept.push(all[i as int]).map_values(path_of) =~= kept.map_values(
                        path_of,
                    ).push(entry.0@));
                    assert(texts(stale@) =~= texts(before).push(entry.0@));
                }
            }
            i += 1;
        }
        assert(entry_views(entries@).take(entries@.len() as int) =~= entry_views(entries@));
        stale
    }
}

/// The hash of a file's content: empty for an empty file, else its SHA-256
/// digest in hexadecimal.
pub open spec fn content_hash(data: Seq<u8>) -> Seq<char> {
    if data.len() == 0 {
        seq![]
    } else {
        sha256_hex(data)
    }
}

} // verus!
