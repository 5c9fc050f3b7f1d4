//! The long-format directory listing: every column of a listing row that
//! can be computed from plain metadata values is formatted here. Reading
//! the metadata, resolving user and group names, and rendering the local
//! modification time stay in the unverified shell, which hands the results
//! in as plain values.

use vstd::prelude::*;
use crate::counter::spec_decimal;
use crate::counter::u64_to_decimal;

verus! {

/// A run of `n` spaces.
pub open spec fn spec_spaces(n: int) -> Seq<char> {
    Seq::new(if n >= 0 {
        n as nat
    } else {
        0
    }, |i: int| ' ')
}

/// `s` right-aligned in a field of width `w` (unchanged if already wider).
pub open spec fn spec_pad_left(s: Seq<char>, w: int) -> Seq<char> {
    spec_spaces(w - s.len()) + s
}

/// `s` left-aligned in a field of width `w` (unchanged if already wider).
pub open spec fn spec_pad_right(s: Seq<char>, w: int) -> Seq<char> {
    s + spec_spaces(w - s.len())
}

/// Right-align `s` in a field of width `w`.
pub fn pad_left(s: &str, w: usize) -> (r: String)
    ensures
        r@ == spec_pad_left(s@, w as int),
{
    let mut p = String::new();
    let mut i: usize = 0;
    let n = s.unicode_len();
    while i + n < w
        invariant
            p@ == spec_spaces(i as int),
            i + n <= w || i == 0,
        decreases w - i - n,
    {
        p.append(" ");
        proof {
            reveal_strlit(" ");
            assert(p@ =~= spec_spaces(i + 1));
        }
        i = i + 1;
    }
    p.append(s);
    proof {
        assert(p@ =~= spec_pad_left(s@, w as int));
    }
    p
}

/// Left-align `s` in a field of width `w`.
pub fn pad_right(s: &str, w: usize) -> (r: String)
    ensures
        r@ == spec_pad_right(s@, w as int),
{
    let mut p = String::from_str(s);
    let n = s.unicode_len();
    let mut i: usize = n;
    while i < w
        invariant
            n == s@.len(),
            i >= n,
            if n >= w {
                i == n
            } else {
                i <= w
            },
            p@ == s@ + spec_spaces(i - n),
        decreases w - i,
    {
        p.append(" ");
        proof {
            reveal_strlit(" ");
            assert(p@ =~= s@ + spec_spaces(i + 1 - n));
        }
        i = i + 1;
    }
    proof {
        assert(p@ =~= spec_pad_right(s@, w as int));
    }
    p
}

/// The character of one permission-bit position: position `i` (bit `i` of
/// the mode, for `i` in `0..9`) shows `r`, `w` or `x` by its place in the
/// owner/group/other triple, or `-` when the bit is clear.
pub open spec fn spec_perm_char(mode: u32, i: u32) -> char {
    if (mode >> i) & 1u32 == 1u32 {
        if i % 3 == 2 {
            'r'
        } else if i % 3 == 1 {
            'w'
        } else {
            'x'
        }
    } else {
        '-'
    }
}

/// The nine-character `rwxrwxrwx`-style rendering of the permission bits.
pub open spec fn spec_permissions(mode: u32) -> Seq<char> {
    Seq::new(9, |k: int| spec_perm_char(mode, (8 - k) as u32))
}

/// Render the low nine permission bits of a mode, owner triple first.
pub fn to_permission_expression(mode: u32) -> (r: String)
    ensures
        r@ == spec_permissions(mode),
{
    let mut s = String::new();
    let mut k: usize = 0;
    while k < 9
        invariant
            k <= 9,
            s@.len() == k,
            forall|j: int| 0 <= j < k ==> s@[j] == spec_perm_char(mode, (8 - j) as u32),
        decreases 9 - k,
    {
        let i: u32 = 8 - (k as u32);
        let piece: &'static str = if (mode >> i) & 1u32 == 1u32 {
            if i % 3 == 2 {
                "r"
            } else if i % 3 == 1 {
                "w"
            } else {
                "x"
            }
        } else {
            "-"
        };
        proof {
            reveal_strlit("r");
            reveal_strlit("w");
            reveal_strlit("x");
            reveal_strlit("-");
            assert(piece@ =~= seq![spec_perm_char(mode, i)]);
        }
        s.append(piece);
        k = k + 1;
    }
    proof {
        assert(s@ =~= spec_permissions(mode));
    }
    s
}

/// The listing's one-character file type tag: `d` for a directory, `l` for
/// a symbolic link, `-` otherwise. A directory tag takes precedence.
pub fn to_file_type_char(is_dir: bool, is_symlink: bool) -> (r: char)
    ensures
        is_dir ==> r == 'd',
        !is_dir && is_symlink ==> r == 'l',
        !is_dir && !is_symlink ==> r == '-',
{
    if is_dir {
        'd'
    } else if is_symlink {
        'l'
    } else {
        '-'
    }
}

/// 1024 to the `k`-th power: the divisor of size unit `k`.
pub open spec fn pow1024(k: nat) -> nat
    decreases k,
{
    if k == 0 {
        1
    } else {
        1024 * pow1024((k - 1) as nat)
    }
}

/// The unit of a size of at least 1024 bytes: the largest power of 1024,
/// capped at 5 (`P`), that leaves a quotient below 1024.
pub open spec fn spec_unit_index(size: nat) -> nat
    recommends
        size >= 1024,
{
    if size < pow1024(2) {
        1
    } else if size < pow1024(3) {
        2
    } else if size < pow1024(4) {
        3
    } else if size < pow1024(5) {
        4
    } else {
        5
    }
}

/// The unit letters, indexed by unit.
pub open spec fn spec_unit_str(k: nat) -> Seq<char> {
    if k == 1 {
        "K"@
    } else if k == 2 {
        "M"@
    } else if k == 3 {
        "G"@
    } else if k == 4 {
        "T"@
    } else {
        "P"@
    }
}

/// The human-readable rendering of a byte size: below 1024 the byte count
/// right-aligned to width 4 and tagged `B`; otherwise the size scaled by
/// the unit's power of 1024, rounded to the nearest tenth — an exact tie
/// keeps the even digit, as one-decimal rendering of the scaled value
/// does — and tagged with the unit letter.
pub open spec fn spec_human_size(size: nat) -> Seq<char> {
    if size < 1024 {
        spec_pad_left(spec_decimal(size), 4) + "B"@
    } else {
        let d = pow1024(spec_unit_index(size));
        let q = (size * 10) / d;
        let r = (size * 10) % d;
        let t = if r > d / 2 || (r == d / 2 && q % 2 == 1) {
            q + 1
        } else {
            q
        };
        spec_pad_left(spec_decimal(t / 10) + "."@ + spec_decimal(t % 10), 4) + spec_unit_str(
            spec_unit_index(size),
        )
    }
}

/// Render a byte size in human-readable form.
pub fn to_human_readable_size(size: u64) -> (r: String)
    ensures
        r@ == spec_human_size(size as nat),
{
    if size < 1024 {
        let mut s = pad_left(u64_to_decimal(size).as_str(), 4);
        s.append("B");
        return s;
    }
    let mut unit: u32 = 1;
    let mut divisor: u64 = 1024;
    proof {
        lemma_pow1024_values();
    }
    while unit < 5 && size / divisor >= 1024
        invariant
            1 <= unit <= 5,
            1024 <= divisor,
            divisor == pow1024(unit as nat),
            size >= pow1024(unit as nat),
        decreases 5 - unit,
    {
        proof {
            lemma_pow1024_values();
            assert(size >= 1024 * divisor) by (nonlinear_arith)
                requires
                    divisor > 0,
                    size / divisor >= 1024,
            ;
        }
        unit = unit + 1;
        divisor = divisor * 1024;
        proof {
            assert(pow1024(unit as nat) == 1024 * pow1024((unit - 1) as nat));
        }
    }
    proof {
        lemma_pow1024_values();
        assert(unit == spec_unit_index(size as nat)) by {
            if unit < 5 {
                assert(size / divisor < 1024);
                assert(size < 1024 * divisor) by (nonlinear_arith)
                    requires
                        divisor > 0,
                        size / divisor < 1024,
                ;
            }
        }
    }
    let ten: u128 = (size as u128) * 10;
    let q128: u128 = ten / (divisor as u128);
    let r128: u128 = ten % (divisor as u128);
    let half: u128 = (divisor / 2) as u128;
    let t128: u128 = if r128 > half || (r128 == half && q128 % 2 == 1) {
        q128 + 1
    } else {
        q128
    };
    proof {
        assert(q128 == ((size as int) * 10) / (divisor as int));
        assert(r128 == ((size as int) * 10) % (divisor as int));
        assert(half == (divisor as int) / 2);
        assert(q128 + 1 <= u64::MAX) by (nonlinear_arith)
            requires
                q128 == ((size as int) * 10) / (divisor as int),
                divisor >= 1024,
                size <= u64::MAX,
        ;
        assert(t128 <= u64::MAX);
    }
    let t: u64 = t128 as u64;
    let mut body = u64_to_decimal(t / 10);
    body.append(".");
    body.append(u64_to_decimal(t % 10).as_str());
    let mut s = pad_left(body.as_str(), 4);
    s.append(unit_str(unit));
    proof {
        assert(s@ =~= spec_human_size(size as nat));
    }
    s
}

/// The first six powers of 1024, written out.
proof fn lemma_pow1024_values()
    ensures
        pow1024(0) == 1,
        pow1024(1) == 1024,
        pow1024(2) == 0x100000,
        pow1024(3) == 0x40000000,
        pow1024(4) == 0x10000000000,
        pow1024(5) == 0x4000000000000,
{
    assert(pow1024(0) == 1);
    assert(pow1024(1) == 1024 * pow1024(0));
    assert(pow1024(2) == 1024 * pow1024(1));
    assert(pow1024(3) == 1024 * pow1024(2));
    assert(pow1024(4) == 1024 * pow1024(3));
    assert(pow1024(5) == 1024 * pow1024(4));
}

fn unit_str(k: u32) -> (r: &'static str)
    requires
        1 <= k <= 5,
    ensures
        r@ == spec_unit_str(k as nat),
{
    if k == 1 {
        "K"
    } else if k == 2 {
        "M"
    } else if k == 3 {
        "G"
    } else if k == 4 {
        "T"
    } else {
        "P"
    }
}

/// The display name of a symbolic link: `{name} -> {target}`.
pub fn symlink_display_name(name: &str, target: &str) -> (r: String)
    ensures
        r@ == name@ + " -> "@ + target@,
{
    let mut s = String::from_str(name);
    s.append(" -> ");
    s.append(target);
    s
}

/// One long-format listing row, from plain metadata values: the file type
/// tag, the nine permission characters, the hard link count right-aligned
/// to width 4, user and group names left-aligned to width 8, the
/// human-readable size right-aligned to width 4, the rendered modification
/// time, and the display name, separated by single spaces.
pub open spec fn spec_direntry_row(
    is_dir: bool,
    is_symlink: bool,
    mode: u32,
    nlink: u64,
    user: Seq<char>,
    group: Seq<char>,
    size: nat,
    modified: Seq<char>,
    name: Seq<char>,
) -> Seq<char> {
    (if is_dir {
        "d"@
    } else if is_symlink {
        "l"@
    } else {
        "-"@
    }) + spec_permissions(mode) + " "@ + spec_pad_left(spec_decimal(nlink as nat), 4) + " "@
        + spec_pad_right(user, 8) + " "@ + spec_pad_right(group, 8) + " "@ + spec_pad_left(
        spec_human_size(size),
        4,
    ) + " "@ + modified + " "@ + name
}

/// Format one listing row.
pub fn format_direntry_row(
    is_dir: bool,
    is_symlink: bool,
    mode: u32,
    nlink: u64,
    user: &str,
    group: &str,
    size: u64,
    modified: &str,
    name: &str,
) -> (r: String)
    ensures
        r@ == spec_direntry_row(
            is_dir,
            is_symlink,
            mode,
            nlink,
            user@,
            group@,
            size as nat,
            modified@,
            name@,
        ),
{
    let mut s = if is_dir {
        String::from_str("d")
    } else if is_symlink {
        String::from_str("l")
    } else {
        String::from_str("-")
    };
    s.append(to_permission_expression(mode).as_str());
    s.append(" ");
    s.append(pad_left(u64_to_decimal(nlink).as_str(), 4).as_str());
    s.append(" ");
    s.append(pad_right(user, 8).as_str());
    s.append(" ");
    s.append(pad_right(group, 8).as_str());
    s.append(" ");
    s.append(pad_left(to_human_readable_size(size).as_str(), 4).as_str());
    s.append(" ");
    s.append(modified);
    s.append(" ");
    s.append(name);
    s
}

} // verus!
