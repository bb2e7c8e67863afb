//! The storage key of a record: the namespace `/todo/`, then the record's id
//! in decimal.
//!
//! The key is rendered and proved here; the host's own path type is made
//! from it by the one trusted function at the end of this file.

use vstd::prelude::*;
use tezos_smart_rollup::storage::path::OwnedPath;
use tezos_smart_rollup::storage::path::PathError;

verus! {

/// The longest path that the host accepts, in bytes.
pub const PATH_MAX_BYTES: usize = 242;

/// The byte `/`.
pub const SEPARATOR: u8 = 0x2F;

/// The byte `-`.
pub const MINUS: u8 = 0x2D;

/// The byte `0`.
pub const ZERO: u8 = 0x30;

/// The ASCII digit of `d`.
pub open spec fn digit(d: nat) -> u8
    recommends
        d < 10,
{
    (ZERO + d) as u8
}

/// The decimal digits of `n`, most significant first, without leading zeros.
pub open spec fn decimal(n: nat) -> Seq<u8>
    decreases n,
{
    if n < 10 {
        seq![digit(n)]
    } else {
        decimal(n / 10).push(digit(n % 10))
    }
}

/// The number that a sequence of ASCII digits spells.
pub open spec fn decimal_value(s: Seq<u8>) -> int
    decreases s.len(),
{
    if s.len() == 0 {
        0
    } else {
        decimal_value(s.drop_last()) * 10 + (s.last() - ZERO)
    }
}

/// The decimal form of `i`, with a leading `-` where it is negative.
pub open spec fn signed_decimal(i: int) -> Seq<u8> {
    if i < 0 {
        seq![MINUS] + decimal((-i) as nat)
    } else {
        decimal(i as nat)
    }
}

/// The namespace of all records: the ASCII bytes of `/todo/`.
pub open spec fn namespace() -> Seq<u8> {
    seq![SEPARATOR, 0x74u8, 0x6Fu8, 0x64u8, 0x6Fu8, SEPARATOR]
}

/// The storage key of the record `id`.
pub open spec fn todo_path(id: i64) -> Seq<u8> {
    namespace() + signed_decimal(id as int)
}

/// Whether `b` may stand in a step of a path: an ASCII letter or digit, or
/// one of `.`, `_` and `-`.
pub open spec fn step_byte(b: u8) -> bool {
    ||| 0x30 <= b <= 0x39
    ||| 0x41 <= b <= 0x5A
    ||| 0x61 <= b <= 0x7A
    ||| b == 0x2E
    ||| b == 0x5F
    ||| b == 0x2D
}

/// Whether `p` is `/readonly` or lies below it. The constant is the ASCII
/// form of `/readonly`.
pub open spec fn read_only(p: Seq<u8>) -> bool {
    &&& p.len() >= 9
    &&& p.subrange(0, 9) == seq![SEPARATOR, 0x72u8, 0x65u8, 0x61u8, 0x64u8, 0x6Fu8, 0x6Eu8, 0x6Cu8, 0x79u8]
    &&& (p.len() == 9 || p[9] == SEPARATOR)
}

/// What the host accepts as a path that can be written: non-empty steps of
/// step bytes, each led by one `/`, at most `PATH_MAX_BYTES` bytes in all,
/// and not below `/readonly`.
pub open spec fn well_formed_path(p: Seq<u8>) -> bool {
    &&& 0 < p.len() <= PATH_MAX_BYTES
    &&& p[0] == SEPARATOR
    &&& p.last() != SEPARATOR
    &&& forall|i: int|
        1 <= i < p.len() ==> if #[trigger] p[i] == SEPARATOR {
            p[i - 1] != SEPARATOR
        } else {
            step_byte(p[i])
        }
    &&& !read_only(p)
}

/// The bytes that a host path holds.
pub uninterp spec fn path_text(path: OwnedPath) -> Seq<u8>;

/// Ten to the power `k`.
pub open spec fn pow10(k: nat) -> nat
    decreases k,
{
    if k == 0 {
        1
    } else {
        10 * pow10((k - 1) as nat)
    }
}

/// The digits of a number are digits, and a number below `10^k` has at most
/// `k` of them.
pub proof fn lemma_decimal_digits(n: nat, k: nat)
    requires
        k >= 1,
        n < pow10(k),
    ensures
        1 <= decimal(n).len() <= k,
        forall|i: int| 0 <= i < decimal(n).len() ==> ZERO <= #[trigger] decimal(n)[i] <= ZERO + 9,
    decreases n,
{
    if n >= 10 {
        assert(k >= 2) by {
            if k == 1 {
                assert(pow10(1) == 10 * pow10(0));
            }
        }
        lemma_decimal_digits(n / 10, (k - 1) as nat);
    }
}

/// The digits of a number spell that number.
pub proof fn lemma_decimal_value(n: nat)
    ensures
        decimal_value(decimal(n)) == n,
    decreases n,
{
    let s = decimal(n);
    if n < 10 {
        assert(s.drop_last() =~= Seq::<u8>::empty());
        assert(decimal_value(s.drop_last()) == 0);
        assert(s.last() == digit(n));
    } else {
        lemma_decimal_value(n / 10);
        assert(s.drop_last() =~= decimal(n / 10));
        assert(s.last() == digit(n % 10));
    }
    assert(decimal_value(s) == decimal_value(s.drop_last()) * 10 + (s.last() - ZERO));
}

/// Different numbers have different signed decimal forms.
pub proof fn lemma_signed_decimal_injective(a: int, b: int)
    requires
        signed_decimal(a) == signed_decimal(b),
    ensures
        a == b,
{
    let ma: nat = if a < 0 { (-a) as nat } else { a as nat };
    let mb: nat = if b < 0 { (-b) as nat } else { b as nat };
    let sa = signed_decimal(a);
    let sb = signed_decimal(b);
    lemma_decimal_value(ma);
    lemma_decimal_value(mb);
    lemma_decimal_first(ma);
    lemma_decimal_first(mb);
    assert(sa[0] == sb[0]);
    if a < 0 {
        assert(sa[0] == MINUS);
        assert(sa.subrange(1, sa.len() as int) =~= decimal(ma));
    } else {
        assert(sa[0] == decimal(ma)[0]);
    }
    if b < 0 {
        assert(sb[0] == MINUS);
        assert(sb.subrange(1, sb.len() as int) =~= decimal(mb));
    } else {
        assert(sb[0] == decimal(mb)[0]);
    }
    assert((a < 0) == (b < 0));
    assert(decimal(ma) == decimal(mb));
    assert(ma == mb);
}

/// A decimal form is not empty and begins with a digit.
proof fn lemma_decimal_first(n: nat)
    ensures
        decimal(n).len() >= 1,
        ZERO <= decimal(n)[0] <= ZERO + 9,
    decreases n,
{
    if n >= 10 {
        lemma_decimal_first(n / 10);
    }
}

/// No two records share a storage key.
pub proof fn law_paths_distinct(a: i64, b: i64)
    requires
        todo_path(a) == todo_path(b),
    ensures
        a == b,
{
    let sa = signed_decimal(a as int);
    let sb = signed_decimal(b as int);
    assert(todo_path(a).subrange(6, todo_path(a).len() as int) =~= sa);
    assert(todo_path(b).subrange(6, todo_path(b).len() as int) =~= sb);
    lemma_signed_decimal_injective(a as int, b as int);
}

/// Every storage key is a path that the host accepts.
pub proof fn law_paths_well_formed(id: i64)
    ensures
        well_formed_path(todo_path(id)),
        7 <= todo_path(id).len() <= 26,
{
    let m: nat = if id < 0 { (-id) as nat } else { id as nat };
    assert(pow10(19) == 10_000_000_000_000_000_000nat) by {
        reveal_with_fuel(pow10, 20);
    }
    lemma_decimal_digits(m, 19);
    let p = todo_path(id);
    let s = signed_decimal(id as int);
    assert(forall|i: int| 0 <= i < s.len() ==> s[i] != SEPARATOR && step_byte(#[trigger] s[i]));
    assert forall|i: int| 1 <= i < p.len() implies if #[trigger] p[i] == SEPARATOR {
        p[i - 1] != SEPARATOR
    } else {
        step_byte(p[i])
    } by {
        if i >= 6 {
            assert(p[i] == s[i - 6]);
        }
    }
    assert(p.last() == s.last());
    if p.len() >= 9 {
        assert(p.subrange(0, 9)[1] == p[1]);
    }
}

/// `s` read from its end.
pub open spec fn backwards(s: Seq<u8>) -> Seq<u8> {
    Seq::new(s.len(), |i: int| s[s.len() - 1 - i])
}

/// Appends the decimal digits of `n` to `out`.
pub fn put_decimal(out: &mut Vec<u8>, n: u64)
    ensures
        final(out)@ == old(out)@ + decimal(n as nat),
{
    let mut low_first: Vec<u8> = Vec::new();
    let mut rest: u64 = n / 10;
    low_first.push(ZERO + (n % 10) as u8);
    while rest > 0
        invariant
            low_first@.len() >= 1,
            decimal(n as nat) == (if rest > 0 {
                decimal(rest as nat)
            } else {
                Seq::<u8>::empty()
            }) + backwards(low_first@),
        decreases rest,
    {
        let ghost before = low_first@;
        low_first.push(ZERO + (rest % 10) as u8);
        proof {
            let d = digit((rest % 10) as nat);
            let higher = if rest / 10 > 0 {
                decimal((rest / 10) as nat)
            } else {
                Seq::<u8>::empty()
            };
            assert(decimal(rest as nat) =~= higher.push(d));
            assert(backwards(before.push(d)) =~= seq![d] + backwards(before));
            assert(higher.push(d) + backwards(before) =~= higher + (seq![d] + backwards(before)));
        }
        rest = rest / 10;
    }
    let mut left: usize = low_first.len();
    while left > 0
        invariant
            left <= low_first@.len(),
            out@ == old(out)@ + backwards(low_first@).subrange(0, low_first@.len() - left),
        decreases left,
    {
        left -= 1;
        out.push(low_first[left]);
        assert(out@ =~= old(out)@ + backwards(low_first@).subrange(0, low_first@.len() - left));
    }
    assert(backwards(low_first@).subrange(0, low_first@.len() as int) =~= backwards(low_first@));
}

/// Renders the storage key of the record `id`.
pub fn todo_path_bytes(id: i64) -> (path: Vec<u8>)
    ensures
        path@ == todo_path(id),
        well_formed_path(path@),
{
    let mut path: Vec<u8> = Vec::new();
    path.push(SEPARATOR);
    path.push(0x74);
    path.push(0x6F);
    path.push(0x64);
    path.push(0x6F);
    path.push(SEPARATOR);
    assert(path@ =~= namespace());
    if id < 0 {
        path.push(MINUS);
        put_decimal(&mut path, ((-(id + 1)) as u64) + 1);
        assert(path@ =~= todo_path(id));
    } else {
        put_decimal(&mut path, id as u64);
    }
    proof {
        law_paths_well_formed(id);
    }
    path
}

/// The host path of the record `id`.
pub fn create_todo_path(id: i64) -> (path: OwnedPath)
    ensures
        path_text(path) == todo_path(id),
{
    host_path(todo_path_bytes(id)).unwrap()
}

/// `tezos_smart_rollup::storage::path::PathError`, the reason why bytes are
/// no path. Nothing is read from it.
#[verifier::external_type_specification]
#[verifier::external_body]
pub struct ExPathError(PathError);

/// `tezos_smart_rollup::storage::path::OwnedPath`, a validated path that owns
/// its bytes.
#[verifier::external_type_specification]
#[verifier::external_body]
pub struct ExOwnedPath(OwnedPath);

/// `OwnedPath::try_from` on a vector of bytes. Taken on trust: it accepts
/// exactly the well-formed paths, and the path it returns holds the bytes it
/// was given.
#[verifier::external_body]
fn host_path(bytes: Vec<u8>) -> (r: Result<OwnedPath, PathError>)
    ensures
        match r {
            Ok(path) => well_formed_path(bytes@) && path_text(path) == bytes@,
            Err(_) => !well_formed_path(bytes@),
        },
{
    OwnedPath::try_from(bytes)
}

} // verus!
