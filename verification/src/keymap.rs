//! The keyboard map: which keycode produces each keysym in the current layout.
use std::collections::HashMap;
use vstd::prelude::*;

verus! {

broadcast use vstd::std_specs::hash::group_hash_axioms;

/// `j` is the first position of `keysym` in `keysyms`.
pub open spec fn first_position(keysyms: Seq<u32>, keysym: u32, j: int) -> bool {
    &&& 0 <= j < keysyms.len()
    &&& keysyms[j] == keysym
    &&& forall|k: int| 0 <= k < j ==> keysyms[k] != keysym
}

/// The keycode whose row of the server's keyboard mapping holds position `j`:
/// the rows hold `per` keysyms each and the first row belongs to `min_keycode`.
pub open spec fn keycode_of_position(min_keycode: u8, per: u8, j: int) -> int {
    min_keycode + j / (per as int)
}

/// `m` maps every non-zero keysym of the keyboard mapping `keysyms` to the
/// keycode of the first row that holds it, and holds nothing else.
pub open spec fn is_keysym_map(m: Map<u32, u8>, min_keycode: u8, per: u8, keysyms: Seq<u32>) -> bool {
    &&& forall|sym: u32| #[trigger]
        m.contains_key(sym) <==> (sym != 0 && keysyms.contains(sym))
    &&& forall|sym: u32, j: int|
        m.contains_key(sym) && #[trigger] first_position(keysyms, sym, j) ==> m[sym]
            == keycode_of_position(min_keycode, per, j)
}

/// The keyboard mapping fits the keycode range: every row's keycode is at most 255.
pub open spec fn mapping_fits(min_keycode: u8, per: u8, len: nat) -> bool {
    &&& per > 0
    &&& len > 0 ==> min_keycode + (len - 1) / (per as int) <= 255
}

/// Whether a keyboard mapping of `len` keysyms fits the keycode range.
pub fn mapping_in_range(min_keycode: u8, per: u8, len: usize) -> (ok: bool)
    ensures
        ok == mapping_fits(min_keycode, per, len as nat),
{
    if per == 0 {
        return false;
    }
    if len == 0 {
        return true;
    }
    let rows = (len - 1) / (per as usize);
    rows <= 255 - min_keycode as usize
}

proof fn lemma_row_of_position(k: int, per: int, q: int, pos: int)
    requires
        per > 0,
        0 <= pos < per,
        k == q * per + pos,
    ensures
        k / per == q,
{
    vstd::arithmetic::div_mod::lemma_fundamental_div_mod_converse(k, per, q, pos);
}

/// Builds the keysym-to-keycode map from the server's keyboard mapping: `keysyms`
/// holds `keysyms_per_keycode` keysyms for each keycode from `min_keycode` on. A
/// keysym that several keycodes produce maps to the lowest of them; the keysym
/// zero (no symbol) is never mapped.
pub fn build_keysym_map(min_keycode: u8, keysyms_per_keycode: u8, keysyms: &Vec<u32>) -> (map:
    HashMap<u32, u8>)
    requires
        mapping_fits(min_keycode, keysyms_per_keycode, keysyms@.len()),
    ensures
        is_keysym_map(map@, min_keycode, keysyms_per_keycode, keysyms@),
{
    let per: usize = keysyms_per_keycode as usize;
    let len = keysyms.len();
    let mut map: HashMap<u32, u8> = HashMap::new();
    let mut keycode: u8 = min_keycode;
    let mut pos: usize = 0;
    let mut k: usize = 0;
    proof {
        assert(keysyms@.take(0) =~= Seq::<u32>::empty());
    }
    while k < len
        invariant
            len == keysyms@.len(),
            per == keysyms_per_keycode as usize,
            mapping_fits(min_keycode, keysyms_per_keycode, keysyms@.len()),
            k <= len,
            pos <= per,
            min_keycode <= keycode,
            k == (keycode - min_keycode) * per + pos,
            is_keysym_map(map@, min_keycode, keysyms_per_keycode, keysyms@.take(k as int)),
        decreases len - k,
    {
        if pos == per {
            proof {
                let q = keycode - min_keycode;
                assert((q + 1) * (per as int) == q * (per as int) + per) by (nonlinear_arith);
                lemma_row_of_position(k as int, per as int, (keycode - min_keycode) + 1, 0);
                vstd::arithmetic::div_mod::lemma_div_is_ordered(k as int, len - 1, per as int);
            }
            keycode = keycode + 1;
            pos = 0;
        }
        proof {
            lemma_row_of_position(k as int, per as int, (keycode - min_keycode) as int, pos as int);
        }
        let sym = keysyms[k];
        let ghost before = map@;
        let ghost prefix = keysyms@.take(k as int);
        let ghost next = keysyms@.take(k + 1);
        proof {
            assert(next =~= prefix.push(sym));
        }
        if sym != 0 && !map.contains_key(&sym) {
            map.insert(sym, keycode);
        }
        proof {
            assert forall|s: u32| #[trigger] map@.contains_key(s) <==> (s != 0 && next.contains(s)) by {
                if next.contains(s) && s != sym {
                    let j = choose|j: int| 0 <= j < next.len() && next[j] == s;
                    assert(prefix[j] == s);
                }
                if prefix.contains(s) {
                    let j = choose|j: int| 0 <= j < prefix.len() && prefix[j] == s;
                    assert(next[j] == s);
                }
                if s == sym {
                    assert(next[k as int] == s);
                }
            }
            assert forall|s: u32, j: int|
                map@.contains_key(s) && #[trigger] first_position(next, s, j) implies map@[s]
                == keycode_of_position(min_keycode, keysyms_per_keycode, j) by {
                if j < k {
                    assert(first_position(prefix, s, j));
                    assert(prefix.contains(s));
                } else {
                    assert(j == k);
                    if prefix.contains(s) {
                        let i = choose|i: int| 0 <= i < prefix.len() && prefix[i] == s;
                        assert(next[i] == s);
                    }
                }
            }
        }
        pos = pos + 1;
        k = k + 1;
    }
    proof {
        assert(keysyms@.take(len as int) =~= keysyms@);
    }
    map
}


/// The number of keycodes from `min_keycode` to `max_keycode`, both included:
/// the length of the keyboard mapping to ask the server for.
pub fn keycode_count(min_keycode: u8, max_keycode: u8) -> (count: u8)
    requires
        min_keycode <= max_keycode,
        max_keycode - min_keycode + 1 <= 255,
    ensures
        count == max_keycode - min_keycode + 1,
{
    max_keycode - min_keycode + 1
}

} // verus!
