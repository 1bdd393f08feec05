//! Random password generation.
//!
//! A password is drawn from up to four character classes (chosen to avoid
//! easily confused characters). Each selected class contributes at least one
//! character; the rest are drawn from the union of the selected classes, and
//! the whole password is shuffled. The keyed-hash key generator reuses this
//! as its source of high-entropy key material.

use vstd::prelude::*;
use vstd::seq_lib::group_to_multiset_ensures;

use rand::seq::SliceRandom;
use rand::Rng;

use crate::b64::ascii_to_string;
use crate::errors::TextError;

verus! {

/// The upper-case class: `A`-`Z` without `I` and `O`.
pub open spec fn spec_upper_chars() -> Seq<u8> {
    seq![
        65u8, 66, 67, 68, 69, 70, 71, 72, 74, 75, 76, 77, 78, 80, 81, 82, 83, 84, 85, 86, 87, 88,
        89, 90,
    ]
}

/// The lower-case class: `a`-`z` without `o`.
pub open spec fn spec_lower_chars() -> Seq<u8> {
    seq![
        97u8, 98, 99, 100, 101, 102, 103, 104, 105, 106, 107, 108, 109, 110, 112, 113, 114, 115,
        116, 117, 118, 119, 120, 121, 122,
    ]
}

/// The digit class: `1`-`9`.
pub open spec fn spec_number_chars() -> Seq<u8> {
    seq![49u8, 50, 51, 52, 53, 54, 55, 56, 57]
}

/// The symbol class.
pub open spec fn spec_symbol_chars() -> Seq<u8> {
    seq![33u8, 64, 35, 36, 37, 94, 38, 42, 95]
}

/// Whether `c` belongs to one of the selected classes.
pub open spec fn spec_allowed(c: u8, upper: bool, lower: bool, number: bool, symbol: bool) -> bool {
    ||| upper && spec_upper_chars().contains(c)
    ||| lower && spec_lower_chars().contains(c)
    ||| number && spec_number_chars().contains(c)
    ||| symbol && spec_symbol_chars().contains(c)
}

/// How many classes are selected.
pub open spec fn spec_class_count(upper: bool, lower: bool, number: bool, symbol: bool) -> int {
    (if upper { 1int } else { 0 }) + (if lower { 1int } else { 0 }) + (if number {
        1int
    } else {
        0
    }) + (if symbol { 1int } else { 0 })
}

/// Relies on `Rng::gen_range` of rand: a uniformly random index below `n`.
#[verifier::external_body]
fn rand_below(n: usize) -> (r: usize)
    requires
        n > 0,
    ensures
        r < n,
{
    rand::thread_rng().gen_range(0..n)
}

/// Relies on `SliceRandom::shuffle` of rand: the buffer is permuted in
/// place, so it holds the same bytes with the same multiplicities.
#[verifier::external_body]
fn shuffle_bytes(v: &mut Vec<u8>)
    ensures
        final(v)@.to_multiset() == old(v)@.to_multiset(),
{
    v.shuffle(&mut rand::thread_rng());
}

fn upper_chars() -> (v: Vec<u8>)
    ensures
        v@ == spec_upper_chars(),
{
    let v = vec![
        65u8, 66, 67, 68, 69, 70, 71, 72, 74, 75, 76, 77, 78, 80, 81, 82, 83, 84, 85, 86, 87, 88,
        89, 90,
    ];
    proof {
        assert(v@ =~= spec_upper_chars());
    }
    v
}

fn lower_chars() -> (v: Vec<u8>)
    ensures
        v@ == spec_lower_chars(),
{
    let v = vec![
        97u8, 98, 99, 100, 101, 102, 103, 104, 105, 106, 107, 108, 109, 110, 112, 113, 114, 115,
        116, 117, 118, 119, 120, 121, 122,
    ];
    proof {
        assert(v@ =~= spec_lower_chars());
    }
    v
}

fn number_chars() -> (v: Vec<u8>)
    ensures
        v@ == spec_number_chars(),
{
    let v = vec![49u8, 50, 51, 52, 53, 54, 55, 56, 57];
    proof {
        assert(v@ =~= spec_number_chars());
    }
    v
}

fn symbol_chars() -> (v: Vec<u8>)
    ensures
        v@ == spec_symbol_chars(),
{
    let v = vec![33u8, 64, 35, 36, 37, 94, 38, 42, 95];
    proof {
        assert(v@ =~= spec_symbol_chars());
    }
    v
}

/// Pushing onto a sequence keeps every byte it already contains.
proof fn lemma_push_keeps_contains(s: Seq<u8>, x: u8, c: u8)
    requires
        s.contains(c),
    ensures
        s.push(x).contains(c),
{
    let i = choose|i: int| 0 <= i < s.len() && s[i] == c;
    assert(s.push(x)[i] == c);
}

/// Sequences with equal multisets contain the same bytes.
proof fn lemma_multiset_keeps_contains(a: Seq<u8>, b: Seq<u8>, c: u8)
    requires
        a.to_multiset() == b.to_multiset(),
        a.contains(c),
    ensures
        b.contains(c),
{
    broadcast use group_to_multiset_ensures;

    assert(a.to_multiset().count(c) > 0);
    assert(b.to_multiset().count(c) > 0);
}

/// Whether some character of `p` has its byte value in `class`.
pub open spec fn spec_has_class(p: Seq<char>, class: Seq<u8>) -> bool {
    exists|i: int| 0 <= i < p.len() && class.contains(#[trigger] p[i] as u8)
}

/// Draw `length` bytes from the selected character classes, with at least
/// one byte from each selected class, in a random order.
#[verifier::loop_isolation(false)]
pub fn genpass_bytes(upper: bool, lower: bool, number: bool, symbol: bool, length: u8) -> (r: Vec<
    u8,
>)
    requires
        upper || lower || number || symbol,
        spec_class_count(upper, lower, number, symbol) <= length as int,
    ensures
        r@.len() == length as nat,
        forall|i: int| 0 <= i < r@.len() ==> spec_allowed(#[trigger] r@[i], upper, lower, number, symbol),
        upper ==> exists|c: u8| spec_upper_chars().contains(c) && r@.contains(c),
        lower ==> exists|c: u8| spec_lower_chars().contains(c) && r@.contains(c),
        number ==> exists|c: u8| spec_number_chars().contains(c) && r@.contains(c),
        symbol ==> exists|c: u8| spec_symbol_chars().contains(c) && r@.contains(c),
{
    broadcast use group_to_multiset_ensures;

    let mut pool: Vec<u8> = Vec::new();
    let mut password: Vec<u8> = Vec::new();
    let ghost mut wu: u8 = 0;
    let ghost mut wl: u8 = 0;
    let ghost mut wn: u8 = 0;
    let ghost mut ws: u8 = 0;
    if upper {
        let mut chars = upper_chars();
        let pick = chars[rand_below(chars.len())];
        password.push(pick);
        pool.append(&mut chars);
        proof {
            wu = pick;
            assert(password@[password@.len() - 1] == pick);
            assert(password@.contains(pick));
        }
    }
    if lower {
        let mut chars = lower_chars();
        let pick = chars[rand_below(chars.len())];
        proof {
            if upper {
                lemma_push_keeps_contains(password@, pick, wu);
            }
        }
        password.push(pick);
        pool.append(&mut chars);
        proof {
            wl = pick;
            assert(password@[password@.len() - 1] == pick);
            assert(password@.contains(pick));
        }
    }
    if number {
        let mut chars = number_chars();
        let pick = chars[rand_below(chars.len())];
        proof {
            if upper {
                lemma_push_keeps_contains(password@, pick, wu);
            }
            if lower {
                lemma_push_keeps_contains(password@, pick, wl);
            }
        }
        password.push(pick);
        pool.append(&mut chars);
        proof {
            wn = pick;
            assert(password@[password@.len() - 1] == pick);
            assert(password@.contains(pick));
        }
    }
    if symbol {
        let mut chars = symbol_chars();
        let pick = chars[rand_below(chars.len())];
        proof {
            if upper {
                lemma_push_keeps_contains(password@, pick, wu);
            }
            if lower {
                lemma_push_keeps_contains(password@, pick, wl);
            }
            if number {
                lemma_push_keeps_contains(password@, pick, wn);
            }
        }
        password.push(pick);
        pool.append(&mut chars);
        proof {
            ws = pick;
            assert(password@[password@.len() - 1] == pick);
            assert(password@.contains(pick));
        }
    }
    proof {
        assert(password@.len() == spec_class_count(upper, lower, number, symbol));
        assert(forall|i: int|
            0 <= i < pool@.len() ==> spec_allowed(#[trigger] pool@[i], upper, lower, number, symbol));
    }
    while password.len() < length as usize
        invariant
            password@.len() <= length as nat,
            pool@.len() > 0,
            forall|i: int|
                0 <= i < pool@.len() ==> spec_allowed(
                    #[trigger] pool@[i],
                    upper,
                    lower,
                    number,
                    symbol,
                ),
            forall|i: int|
                0 <= i < password@.len() ==> spec_allowed(
                    #[trigger] password@[i],
                    upper,
                    lower,
                    number,
                    symbol,
                ),
            upper ==> spec_upper_chars().contains(wu) && password@.contains(wu),
            lower ==> spec_lower_chars().contains(wl) && password@.contains(wl),
            number ==> spec_number_chars().contains(wn) && password@.contains(wn),
            symbol ==> spec_symbol_chars().contains(ws) && password@.contains(ws),
        decreases length as int - password@.len(),
    {
        let pick = pool[rand_below(pool.len())];
        proof {
            if upper {
                lemma_push_keeps_contains(password@, pick, wu);
            }
            if lower {
                lemma_push_keeps_contains(password@, pick, wl);
            }
            if number {
                lemma_push_keeps_contains(password@, pick, wn);
            }
            if symbol {
                lemma_push_keeps_contains(password@, pick, ws);
            }
        }
        password.push(pick);
    }
    let ghost before = password@;
    shuffle_bytes(&mut password);
    proof {
        assert(password@.to_multiset().len() == password@.len());
        assert(before.to_multiset().len() == before.len());
        assert(password@.len() == before.len());
        assert forall|i: int| 0 <= i < password@.len() implies spec_allowed(
            #[trigger] password@[i],
            upper,
            lower,
            number,
            symbol,
        ) by {
            assert(password@.contains(password@[i]));
            lemma_multiset_keeps_contains(password@, before, password@[i]);
            let j = choose|j: int| 0 <= j < before.len() && before[j] == password@[i];
            assert(spec_allowed(before[j], upper, lower, number, symbol));
        }
        if upper {
            lemma_multiset_keeps_contains(before, password@, wu);
        }
        if lower {
            lemma_multiset_keeps_contains(before, password@, wl);
        }
        if number {
            lemma_multiset_keeps_contains(before, password@, wn);
        }
        if symbol {
            lemma_multiset_keeps_contains(before, password@, ws);
        }
    }
    password
}

/// Generate a random password of `length` characters from the selected
/// classes, with at least one character from each selected class.
pub fn process_genpass(upper: bool, lower: bool, number: bool, symbol: bool, length: u8) -> (r:
    Result<String, TextError>)
    requires
        upper || lower || number || symbol,
        spec_class_count(upper, lower, number, symbol) <= length as int,
    ensures
        r matches Ok(p) && p@.len() == length as nat,
        r matches Ok(p) ==> forall|i: int|
            0 <= i < p@.len() ==> spec_allowed(
                #[trigger] p@[i] as u8,
                upper,
                lower,
                number,
                symbol,
            ),
        upper ==> (r matches Ok(p) ==> spec_has_class(p@, spec_upper_chars())),
        lower ==> (r matches Ok(p) ==> spec_has_class(p@, spec_lower_chars())),
        number ==> (r matches Ok(p) ==> spec_has_class(p@, spec_number_chars())),
        symbol ==> (r matches Ok(p) ==> spec_has_class(p@, spec_symbol_chars())),
{
    let bytes = genpass_bytes(upper, lower, number, symbol, length);
    proof {
        assert forall|i: int| 0 <= i < bytes@.len() implies bytes@[i] < 128 by {
            lemma_allowed_ascii(bytes@[i], upper, lower, number, symbol);
        }
    }
    let p = ascii_to_string(bytes);
    proof {
        assert forall|i: int|
            0 <= i < p@.len() implies spec_allowed(
            #[trigger] p@[i] as u8,
            upper,
            lower,
            number,
            symbol,
        ) by {
            assert(p@[i] == bytes@[i] as char);
            lemma_allowed_ascii(bytes@[i], upper, lower, number, symbol);
            assert(p@[i] as u8 == bytes@[i]);
        }
        assert forall|i: int| 0 <= i < p@.len() implies #[trigger] p@[i] as u8 == bytes@[i] by {
            assert(p@[i] == bytes@[i] as char);
            lemma_allowed_ascii(bytes@[i], upper, lower, number, symbol);
        }
        if upper {
            let c = choose|c: u8| spec_upper_chars().contains(c) && bytes@.contains(c);
            assert(spec_upper_chars().contains(c) && bytes@.contains(c));
            let i = choose|i: int| 0 <= i < bytes@.len() && bytes@[i] == c;
            assert(0 <= i < bytes@.len() && bytes@[i] == c);
            assert(p@[i] as u8 == bytes@[i]);
            assert(spec_upper_chars().contains(p@[i] as u8));
            assert(spec_has_class(p@, spec_upper_chars()));
        }
        if lower {
            let c = choose|c: u8| spec_lower_chars().contains(c) && bytes@.contains(c);
            assert(spec_lower_chars().contains(c) && bytes@.contains(c));
            let i = choose|i: int| 0 <= i < bytes@.len() && bytes@[i] == c;
            assert(0 <= i < bytes@.len() && bytes@[i] == c);
            assert(p@[i] as u8 == bytes@[i]);
            assert(spec_lower_chars().contains(p@[i] as u8));
            assert(spec_has_class(p@, spec_lower_chars()));
        }
        if number {
            let c = choose|c: u8| spec_number_chars().contains(c) && bytes@.contains(c);
            assert(spec_number_chars().contains(c) && bytes@.contains(c));
            let i = choose|i: int| 0 <= i < bytes@.len() && bytes@[i] == c;
            assert(0 <= i < bytes@.len() && bytes@[i] == c);
            assert(p@[i] as u8 == bytes@[i]);
            assert(spec_number_chars().contains(p@[i] as u8));
            assert(spec_has_class(p@, spec_number_chars()));
        }
        if symbol {
            let c = choose|c: u8| spec_symbol_chars().contains(c) && bytes@.contains(c);
            assert(spec_symbol_chars().contains(c) && bytes@.contains(c));
            let i = choose|i: int| 0 <= i < bytes@.len() && bytes@[i] == c;
            assert(0 <= i < bytes@.len() && bytes@[i] == c);
            assert(p@[i] as u8 == bytes@[i]);
            assert(spec_symbol_chars().contains(p@[i] as u8));
            assert(spec_has_class(p@, spec_symbol_chars()));
        }
    }
    Ok(p)
}

/// Every class byte is ASCII.
proof fn lemma_allowed_ascii(c: u8, upper: bool, lower: bool, number: bool, symbol: bool)
    requires
        spec_allowed(c, upper, lower, number, symbol),
    ensures
        c < 128,
{
}

} // verus!
