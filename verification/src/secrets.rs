//! API keys kept apart from the configuration: the environment variable each provider's key
//! is exported under, and how a key is shown.

use vstd::prelude::*;
use vstd::string::StringSliceAdditionalSpecFns;
use vstd::utf8::{decode_utf8, encode_utf8, encode_utf8_decode_utf8, is_char_boundary};

use crate::render_text::byte_len;
use crate::text::{alphanumeric, append_str, chars_of, is_alphanumeric, push_char, to_uppercase, uppercase};

verus! {

/// The character a variable name keeps in place of `c`.
pub open spec fn var_char(c: char) -> char {
    if alphanumeric(c) {
        c
    } else {
        '_'
    }
}

/// `LOOM_`, the provider's name uppercased with every character that is not alphanumeric made
/// a `_`, then `_API_KEY`.
pub open spec fn env_var_name_spec(provider: Seq<char>) -> Seq<char> {
    let up = uppercase(provider);
    "LOOM_"@ + Seq::new(up.len(), |i: int| var_char(up[i])) + "_API_KEY"@
}

/// The conventional environment variable of a provider's key: `LOOM_{NAME}_API_KEY`.
pub fn env_var_name(provider: &str) -> (r: String)
    ensures
        r@ == env_var_name_spec(provider@),
{
    let up = to_uppercase(provider);
    let cs = chars_of(up.as_str());
    let mut r = String::from_str("LOOM_");
    proof { reveal_strlit("LOOM_"); }
    let ghost start = r@;
    let mut i: usize = 0;
    while i < cs.len()
        invariant
            i <= cs.len(),
            start == "LOOM_"@,
            r@ =~= start + Seq::new(i as nat, |j: int| var_char(cs@[j])),
        decreases cs.len() - i,
    {
        let c = cs[i];
        let m = if is_alphanumeric(c) {
            c
        } else {
            '_'
        };
        push_char(&mut r, m);
        assert(Seq::new((i + 1) as nat, |j: int| var_char(cs@[j])) =~= Seq::new(i as nat, |j: int| var_char(cs@[j])).push(m));
        i = i + 1;
    }
    append_str(&mut r, "_API_KEY");
    r
}

/// `n` asterisks.
pub open spec fn stars(n: nat) -> Seq<char> {
    Seq::new(n, |i: int| '*')
}

fn star_string(n: usize) -> (r: String)
    ensures
        r@ == stars(n as nat),
{
    let mut r = String::new();
    let mut i: usize = 0;
    while i < n
        invariant
            i <= n,
            r@ =~= stars(i as nat),
        decreases n - i,
    {
        push_char(&mut r, '*');
        assert(stars((i + 1) as nat) =~= stars(i as nat).push('*'));
        i = i + 1;
    }
    r
}

/// The text of the last four bytes of `s`.
pub open spec fn last_four_bytes(s: Seq<char>) -> Seq<char> {
    let b = encode_utf8(s);
    decode_utf8(b.subrange(byte_len(s) - 4, b.len() as int))
}

/// Whether the last four bytes of `s` begin a character, so that they can be cut off as text.
pub open spec fn tail_is_cuttable(s: Seq<char>) -> bool {
    byte_len(s) > 4 ==> is_char_boundary(encode_utf8(s), byte_len(s) - 4)
}

/// The last four bytes of `s`, as text.
pub(crate) fn tail4(s: &str) -> (r: &str)
    requires
        byte_len(s@) > 4,
        tail_is_cuttable(s@),
    ensures
        r@ == last_four_bytes(s@),
{
    let n = s.len();
    let (_, tail) = s.split_at(n - 4);
    proof {
        encode_utf8_decode_utf8(tail@);
        assert(tail.spec_bytes() =~= s.spec_bytes().subrange(n - 4, s.spec_bytes().len() as int));
    }
    tail
}

/// A key shown with every byte but the last four replaced by `*`: as many `*` as it has
/// bytes when it has four or fewer.
pub open spec fn masked_key_spec(key: Seq<char>) -> Seq<char> {
    let n = byte_len(key);
    if n <= 4 {
        stars(n as nat)
    } else {
        stars((n - 4) as nat) + last_four_bytes(key)
    }
}

/// The key of a provider for display, from what its environment variable holds: only the last
/// four bytes are shown. Cutting there must not split a character.
pub fn get_masked(key: Option<&str>) -> (r: Option<String>)
    requires
        key matches Some(k) ==> tail_is_cuttable(k@),
    ensures
        match key {
            Some(k) => (r matches Some(m) && m@ == masked_key_spec(k@)),
            None => r is None,
        },
{
    match key {
        None => None,
        Some(k) => {
            let n = k.len();
            if n <= 4 {
                Some(star_string(n))
            } else {
                let mut m = star_string(n - 4);
                append_str(&mut m, tail4(k));
                Some(m)
            }
        },
    }
}

} // verus!
