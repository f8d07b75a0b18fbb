use vstd::prelude::*;

use crate::aes::Iv;
use crate::encrypted_msg::{EncryptedMsg, EncryptedMsgWrapper};
use crate::errors::DecodeError;

verus! {

// The transport convention for a batch is the canonical rendering of a JSON
// array of entry objects, with no whitespace between tokens:
//
//   [{"iv":[..16 byte values..],"encrypted_msg":[..byte values..]},...]
//
// Byte values are decimal integers 0..=255 without leading zeros. Decoding is
// all-or-nothing: one malformed element refuses the whole payload.

/// `{"iv":`
pub open spec fn entry_head_lit() -> Seq<u8> {
    seq![123u8, 34u8, 105u8, 118u8, 34u8, 58u8]
}

/// `,"encrypted_msg":`
pub open spec fn entry_mid_lit() -> Seq<u8> {
    seq![
        44u8, 34u8, 101u8, 110u8, 99u8, 114u8, 121u8, 112u8, 116u8, 101u8, 100u8, 95u8, 109u8,
        115u8, 103u8, 34u8, 58u8,
    ]
}

/// The bytes of `lit` stand in `s` at position `i`.
pub open spec fn spec_match_at(s: Seq<u8>, i: int, lit: Seq<u8>) -> bool {
    &&& 0 <= i
    &&& i + lit.len() <= s.len()
    &&& forall|k: int| 0 <= k < lit.len() ==> s[i + k] == #[trigger] lit[k]
}

pub open spec fn is_digit(b: u8) -> bool {
    48 <= b && b <= 57
}

/// One decimal byte value at position `i`: `0`, or one to three digits
/// without a leading zero, value at most 255.
pub open spec fn spec_parse_num(s: Seq<u8>, i: int) -> Option<(u8, int)> {
    if 0 <= i && i < s.len() && is_digit(s[i]) {
        if s[i] == 48 {
            if i + 1 < s.len() && is_digit(s[i + 1]) {
                None
            } else {
                Some((0u8, i + 1))
            }
        } else if i + 1 < s.len() && is_digit(s[i + 1]) {
            if i + 2 < s.len() && is_digit(s[i + 2]) {
                if i + 3 < s.len() && is_digit(s[i + 3]) {
                    None
                } else {
                    let n: int = (s[i] - 48) * 100 + (s[i + 1] - 48) * 10 + (s[i + 2] - 48);
                    if n <= 255 {
                        Some((n as u8, i + 3))
                    } else {
                        None
                    }
                }
            } else {
                Some((((s[i] - 48) * 10 + (s[i + 1] - 48)) as u8, i + 2))
            }
        } else {
            Some(((s[i] - 48) as u8, i + 1))
        }
    } else {
        None
    }
}

/// The comma-separated byte values of a non-empty array, up to and including
/// the closing bracket.
pub open spec fn spec_parse_byte_items(s: Seq<u8>, i: int) -> Option<(Seq<u8>, int)>
    decreases s.len() - i,
{
    match spec_parse_num(s, i) {
        None => None,
        Some((n, j)) => {
            if j < s.len() && s[j] == 44 {
                match spec_parse_byte_items(s, j + 1) {
                    Some((rest, k)) => Some((seq![n].add(rest), k)),
                    None => None,
                }
            } else if j < s.len() && s[j] == 93 {
                Some((seq![n], j + 1))
            } else {
                None
            }
        },
    }
}

/// A JSON array of byte values at position `i`.
pub open spec fn spec_parse_byte_array(s: Seq<u8>, i: int) -> Option<(Seq<u8>, int)> {
    if 0 <= i && i < s.len() && s[i] == 91 {
        if i + 1 < s.len() && s[i + 1] == 93 {
            Some((Seq::empty(), i + 2))
        } else {
            spec_parse_byte_items(s, i + 1)
        }
    } else {
        None
    }
}

/// One entry object at position `i`: the IV field (exactly 16 bytes), then
/// the ciphertext field.
pub open spec fn spec_parse_entry(s: Seq<u8>, i: int) -> Option<((Seq<u8>, Seq<u8>), int)> {
    if spec_match_at(s, i, entry_head_lit()) {
        match spec_parse_byte_array(s, i + 6) {
            Some((ivb, j)) => {
                if ivb.len() == 16 && spec_match_at(s, j, entry_mid_lit()) {
                    match spec_parse_byte_array(s, j + 17) {
                        Some((ct, k)) => {
                            if k < s.len() && s[k] == 125 {
                                Some(((ivb, ct), k + 1))
                            } else {
                                None
                            }
                        },
                        None => None,
                    }
                } else {
                    None
                }
            },
            None => None,
        }
    } else {
        None
    }
}

/// A successful parse of byte items moves the position strictly forward and
/// stays inside the input.
pub proof fn lemma_byte_items_advance(s: Seq<u8>, i: int)
    ensures
        spec_parse_byte_items(s, i) matches Some((b, j)) ==> i < j <= s.len(),
    decreases s.len() - i,
{
    match spec_parse_num(s, i) {
        None => {},
        Some((n, j)) => {
            if j < s.len() && s[j] == 44 {
                lemma_byte_items_advance(s, j + 1);
            }
        },
    }
}

/// A successful parse of a byte array moves the position strictly forward
/// and stays inside the input.
pub proof fn lemma_byte_array_advance(s: Seq<u8>, i: int)
    ensures
        spec_parse_byte_array(s, i) matches Some((b, j)) ==> i < j <= s.len(),
{
    if 0 <= i && i < s.len() && s[i] == 91 {
        if !(i + 1 < s.len() && s[i + 1] == 93) {
            lemma_byte_items_advance(s, i + 1);
        }
    }
}

/// A successful parse of an entry moves the position strictly forward and
/// stays inside the input.
pub proof fn lemma_entry_advance(s: Seq<u8>, i: int)
    ensures
        spec_parse_entry(s, i) matches Some((e, j)) ==> i < j <= s.len(),
{
    if spec_match_at(s, i, entry_head_lit()) {
        lemma_byte_array_advance(s, i + 6);
        match spec_parse_byte_array(s, i + 6) {
            Some((ivb, j)) => {
                lemma_byte_array_advance(s, j + 17);
            },
            None => {},
        }
    }
}

/// The comma-separated entries of a non-empty batch, up to and including the
/// closing bracket.
pub open spec fn spec_parse_entries(s: Seq<u8>, i: int) -> Option<(Seq<(Seq<u8>, Seq<u8>)>, int)>
    decreases s.len() - i,
    via spec_parse_entries_decreases
{
    match spec_parse_entry(s, i) {
        None => None,
        Some((e, j)) => {
            if j < s.len() && s[j] == 44 {
                match spec_parse_entries(s, j + 1) {
                    Some((rest, k)) => Some((seq![e].add(rest), k)),
                    None => None,
                }
            } else if j < s.len() && s[j] == 93 {
                Some((seq![e], j + 1))
            } else {
                None
            }
        },
    }
}

#[via_fn]
proof fn spec_parse_entries_decreases(s: Seq<u8>, i: int) {
    lemma_entry_advance(s, i);
}

/// What a whole payload decodes to: the batch of (IV, ciphertext) pairs, or
/// nothing when the payload does not follow the wire format exactly.
pub open spec fn spec_decode_batch(s: Seq<u8>) -> Option<Seq<(Seq<u8>, Seq<u8>)>> {
    if s.len() >= 2 && s[0] == 91 {
        if s.len() == 2 && s[1] == 93 {
            Some(Seq::empty())
        } else {
            match spec_parse_entries(s, 1) {
                Some((es, j)) => {
                    if j == s.len() {
                        Some(es)
                    } else {
                        None
                    }
                },
                None => None,
            }
        }
    } else {
        None
    }
}

fn entry_head_bytes() -> (v: Vec<u8>)
    ensures
        v@ == entry_head_lit(),
{
    let v: Vec<u8> = vec![123u8, 34u8, 105u8, 118u8, 34u8, 58u8];
    proof {
        assert(v@ =~= entry_head_lit());
    }
    v
}

fn entry_mid_bytes() -> (v: Vec<u8>)
    ensures
        v@ == entry_mid_lit(),
{
    let v: Vec<u8> = vec![
        44u8, 34u8, 101u8, 110u8, 99u8, 114u8, 121u8, 112u8, 116u8, 101u8, 100u8, 95u8, 109u8,
        115u8, 103u8, 34u8, 58u8,
    ];
    proof {
        assert(v@ =~= entry_mid_lit());
    }
    v
}

fn match_at(v: &Vec<u8>, i: usize, lit: &Vec<u8>) -> (b: bool)
    ensures
        b == spec_match_at(v@, i as int, lit@),
{
    if i > v.len() || lit.len() > v.len() - i {
        return false;
    }
    let mut k: usize = 0;
    while k < lit.len()
        invariant
            i + lit.len() <= v.len(),
            k <= lit@.len(),
            forall|m: int| 0 <= m < k ==> v@[i + m] == #[trigger] lit@[m],
        decreases lit@.len() - k,
    {
        if v[i + k] != lit[k] {
            return false;
        }
        k += 1;
    }
    true
}

fn parse_num(v: &Vec<u8>, i: usize) -> (r: Option<(u8, usize)>)
    ensures
        match r {
            Some((n, j)) => spec_parse_num(v@, i as int) == Some((n, j as int)) && i < j <= v@.len(),
            None => spec_parse_num(v@, i as int) is None,
        },
{
    if i < v.len() && 48 <= v[i] && v[i] <= 57 {
        if v[i] == 48 {
            if i + 1 < v.len() && 48 <= v[i + 1] && v[i + 1] <= 57 {
                None
            } else {
                Some((0u8, i + 1))
            }
        } else if i + 1 < v.len() && 48 <= v[i + 1] && v[i + 1] <= 57 {
            if i + 2 < v.len() && 48 <= v[i + 2] && v[i + 2] <= 57 {
                if i + 3 < v.len() && 48 <= v[i + 3] && v[i + 3] <= 57 {
                    None
                } else {
                    let n: u32 = (v[i] - 48) as u32 * 100 + (v[i + 1] - 48) as u32 * 10 + (v[i
                        + 2] - 48) as u32;
                    if n <= 255 {
                        Some((n as u8, i + 3))
                    } else {
                        None
                    }
                }
            } else {
                Some(((v[i] - 48) * 10 + (v[i + 1] - 48), i + 2))
            }
        } else {
            Some((v[i] - 48, i + 1))
        }
    } else {
        None
    }
}

fn parse_byte_items(v: &Vec<u8>, i: usize) -> (r: Option<(Vec<u8>, usize)>)
    ensures
        match r {
            Some((b, j)) => spec_parse_byte_items(v@, i as int) == Some((b@, j as int)) && i < j
                <= v@.len(),
            None => spec_parse_byte_items(v@, i as int) is None,
        },
    decreases v@.len() - i,
{
    match parse_num(v, i) {
        None => None,
        Some((n, j)) => {
            if j < v.len() && v[j] == 44 {
                match parse_byte_items(v, j + 1) {
                    None => None,
                    Some((mut rest, k)) => {
                        let ghost old_rest = rest@;
                        rest.insert(0, n);
                        proof {
                            assert(rest@ =~= seq![n].add(old_rest));
                        }
                        Some((rest, k))
                    },
                }
            } else if j < v.len() && v[j] == 93 {
                let mut out: Vec<u8> = Vec::new();
                out.push(n);
                proof {
                    assert(out@ =~= seq![n]);
                }
                Some((out, j + 1))
            } else {
                None
            }
        },
    }
}

fn parse_byte_array(v: &Vec<u8>, i: usize) -> (r: Option<(Vec<u8>, usize)>)
    ensures
        match r {
            Some((b, j)) => spec_parse_byte_array(v@, i as int) == Some((b@, j as int)) && i < j
                <= v@.len(),
            None => spec_parse_byte_array(v@, i as int) is None,
        },
{
    if i < v.len() && v[i] == 91 {
        if i + 1 < v.len() && v[i + 1] == 93 {
            let out: Vec<u8> = Vec::new();
            proof {
                assert(out@ =~= Seq::<u8>::empty());
            }
            Some((out, i + 2))
        } else {
            parse_byte_items(v, i + 1)
        }
    } else {
        None
    }
}

fn parse_entry(v: &Vec<u8>, i: usize) -> (r: Option<(EncryptedMsgWrapper, usize)>)
    ensures
        match r {
            Some((w, j)) => spec_parse_entry(v@, i as int) == Some((w@, j as int)) && i < j
                <= v@.len() && w.wf(),
            None => spec_parse_entry(v@, i as int) is None,
        },
{
    let head = entry_head_bytes();
    if !match_at(v, i, &head) {
        return None;
    }
    proof {
        assert(entry_head_lit().len() == 6);
        assert(i + 6 <= v.len());
    }
    match parse_byte_array(v, i + 6) {
        None => None,
        Some((iv_bytes, j)) => {
            if iv_bytes.len() != 16 {
                return None;
            }
            let mid = entry_mid_bytes();
            if !match_at(v, j, &mid) {
                return None;
            }
            proof {
                assert(entry_mid_lit().len() == 17);
                assert(j + 17 <= v.len());
            }
            match parse_byte_array(v, j + 17) {
                None => None,
                Some((ct, k)) => {
                    if k < v.len() && v[k] == 125 {
                        let iv = Iv::from_bytes(iv_bytes).unwrap();
                        let w = EncryptedMsgWrapper::new(iv, EncryptedMsg(ct));
                        Some((w, k + 1))
                    } else {
                        None
                    }
                },
            }
        },
    }
}

/// The views of a parsed batch, entry by entry.
pub open spec fn batch_view(ws: Seq<EncryptedMsgWrapper>) -> Seq<(Seq<u8>, Seq<u8>)> {
    ws.map_values(|w: EncryptedMsgWrapper| w@)
}

fn parse_entries(v: &Vec<u8>, i: usize) -> (r: Option<(Vec<EncryptedMsgWrapper>, usize)>)
    ensures
        match r {
            Some((ws, j)) => {
                &&& spec_parse_entries(v@, i as int) == Some((batch_view(ws@), j as int))
                &&& i < j <= v@.len()
                &&& ws@.len() <= j - i
                &&& forall|m: int| 0 <= m < ws@.len() ==> (#[trigger] ws@[m]).wf()
            },
            None => spec_parse_entries(v@, i as int) is None,
        },
    decreases v@.len() - i,
{
    match parse_entry(v, i) {
        None => None,
        Some((w, j)) => {
            if j < v.len() && v[j] == 44 {
                match parse_entries(v, j + 1) {
                    None => None,
                    Some((mut rest, k)) => {
                        let ghost old_rest = rest@;
                        rest.insert(0, w);
                        proof {
                            assert(rest@ =~= seq![w].add(old_rest));
                            assert(batch_view(rest@) =~= seq![w@].add(batch_view(old_rest)));
                        }
                        Some((rest, k))
                    },
                }
            } else if j < v.len() && v[j] == 93 {
                let mut out: Vec<EncryptedMsgWrapper> = Vec::new();
                out.push(w);
                proof {
                    assert(batch_view(out@) =~= seq![w@]);
                }
                Some((out, j + 1))
            } else {
                None
            }
        },
    }
}

/// Decode one remote payload into a batch of entries.
///
/// All-or-nothing: the result is `Ok` exactly when the whole payload follows
/// the wire format, and then the entries are its (IV, ciphertext) pairs in
/// order, each IV a whole block. A batch never holds more entries than the
/// payload has bytes.
pub fn decode_batch(payload: &Vec<u8>) -> (r: Result<Vec<EncryptedMsgWrapper>, DecodeError>)
    ensures
        match r {
            Ok(ws) => {
                &&& spec_decode_batch(payload@) == Some(batch_view(ws@))
                &&& forall|m: int| 0 <= m < ws@.len() ==> (#[trigger] ws@[m]).wf()
                &&& ws@.len() <= payload@.len()
            },
            Err(_) => spec_decode_batch(payload@) is None,
        },
{
    if payload.len() >= 2 && payload[0] == 91 {
        if payload.len() == 2 && payload[1] == 93 {
            let out: Vec<EncryptedMsgWrapper> = Vec::new();
            proof {
                assert(batch_view(out@) =~= Seq::<(Seq<u8>, Seq<u8>)>::empty());
            }
            Ok(out)
        } else {
            match parse_entries(payload, 1) {
                Some((ws, j)) => {
                    if j == payload.len() {
                        Ok(ws)
                    } else {
                        Err(DecodeError)
                    }
                },
                None => Err(DecodeError),
            }
        }
    } else {
        Err(DecodeError)
    }
}

} // verus!
