//! Small verified helpers: string comparison, decimal parsing, and lookup in
//! a decoded property list.

use vstd::prelude::*;

verus! {

/// Character-by-character string equality, proved against the string views.
pub fn str_eq(a: &str, b: &str) -> (r: bool)
    ensures
        r == (a@ == b@),
{
    let alen = a.unicode_len();
    let blen = b.unicode_len();
    if alen != blen {
        proof {
            if a@ == b@ {
                assert(a@.len() == b@.len());
            }
        }
        return false;
    }
    let mut i: usize = 0;
    while i < alen
        invariant
            alen == a@.len(),
            alen == b@.len(),
            0 <= i <= alen,
            forall|j: int| 0 <= j < i ==> a@[j] == b@[j],
        decreases alen - i,
    {
        let ca = a.get_char(i);
        let cb = b.get_char(i);
        if ca != cb {
            proof {
                if a@ == b@ {
                    assert(a@[i as int] == b@[i as int]);
                }
            }
            return false;
        }
        i += 1;
    }
    proof {
        assert(a@ =~= b@);
    }
    true
}

/// A decode failure for one reported object: a required property is absent,
/// or a property's value cannot take the required form.  The offending key is
/// carried along.
#[derive(Debug, Clone, PartialEq)]
pub enum DecodeError {
    MissingKey(String),
    MalformedValue(String),
}

/// Mathematical image of a `DecodeError`.
pub enum DecodeErrV {
    MissingKey(Seq<char>),
    MalformedValue(Seq<char>),
}

impl View for DecodeError {
    type V = DecodeErrV;

    open spec fn view(&self) -> DecodeErrV {
        match self {
            DecodeError::MissingKey(k) => DecodeErrV::MissingKey(k@),
            DecodeError::MalformedValue(k) => DecodeErrV::MalformedValue(k@),
        }
    }
}

/// A decoded property dictionary: the key/value pairs reported by the server
/// for one object, in reported order.
pub struct Props {
    pub entries: Vec<(String, String)>,
}

impl View for Props {
    type V = Seq<(Seq<char>, Seq<char>)>;

    open spec fn view(&self) -> Seq<(Seq<char>, Seq<char>)> {
        self.entries@.map_values(|e: (String, String)| (e.0@, e.1@))
    }
}

/// The value of the first entry whose key matches, if any.
pub open spec fn spec_lookup(m: Seq<(Seq<char>, Seq<char>)>, key: Seq<char>) -> Option<Seq<char>>
    decreases m.len(),
{
    if m.len() == 0 {
        None
    } else if m[0].0 == key {
        Some(m[0].1)
    } else {
        spec_lookup(m.drop_first(), key)
    }
}

impl Props {
    pub fn new() -> (r: Props)
        ensures
            r@ =~= Seq::<(Seq<char>, Seq<char>)>::empty(),
    {
        Props { entries: Vec::new() }
    }

    /// Record one key/value pair at the end of the dictionary.
    pub fn push(&mut self, key: String, value: String)
        ensures
            final(self)@ =~= old(self)@.push((key@, value@)),
    {
        self.entries.push((key, value));
    }
}

/// Look a key up, `None` when it is absent.
pub fn val_opt(props: &Props, key: &str) -> (r: Option<String>)
    ensures
        match r {
            Some(v) => spec_lookup(props@, key@) == Some(v@),
            None => spec_lookup(props@, key@) is None,
        },
{
    let n = props.entries.len();
    let mut i: usize = 0;
    proof {
        assert(props@.skip(0) =~= props@);
    }
    while i < n
        invariant
            n == props.entries.len(),
            props@.len() == n,
            0 <= i <= n,
            spec_lookup(props@, key@) == spec_lookup(props@.skip(i as int), key@),
        decreases n - i,
    {
        if str_eq(props.entries[i].0.as_str(), key) {
            proof {
                assert(props@.skip(i as int)[0] == props@[i as int]);
            }
            return Some(props.entries[i].1.clone());
        }
        proof {
            assert(props@.skip(i as int)[0] == props@[i as int]);
            assert(props@.skip(i as int).drop_first() =~= props@.skip(i as int + 1));
        }
        i += 1;
    }
    None
}

/// Look a required key up; its absence is a decode error naming the key.
pub fn val(props: &Props, key: &str) -> (r: Result<String, DecodeError>)
    ensures
        match r {
            Ok(v) => spec_lookup(props@, key@) == Some(v@),
            Err(e) => spec_lookup(props@, key@) is None && e@ == DecodeErrV::MissingKey(key@),
        },
{
    match val_opt(props, key) {
        Some(v) => Ok(v),
        None => Err(DecodeError::MissingKey(key.to_owned())),
    }
}

/// Look a key up, falling back to a default value when it is absent.
pub fn val_or(props: &Props, key: &str, default: &str) -> (r: String)
    ensures
        r@ == match spec_lookup(props@, key@) {
            Some(v) => v,
            None => default@,
        },
{
    match val_opt(props, key) {
        Some(v) => v,
        None => default.to_owned(),
    }
}

/// Whether a character is a decimal digit.
pub open spec fn is_digit(c: char) -> bool {
    48 <= c as int && c as int <= 57
}

/// The numeric value of a digit character.
pub open spec fn digit_val(c: char) -> nat {
    (c as int - 48) as nat
}

/// Whether a string is one or more decimal digits.
pub open spec fn is_digit_seq(s: Seq<char>) -> bool {
    forall|i: int| 0 <= i < s.len() ==> is_digit(s[i])
}

/// The number a digit string denotes.
pub open spec fn dec_value(s: Seq<char>) -> nat
    decreases s.len(),
{
    if s.len() == 0 {
        0
    } else {
        dec_value(s.drop_last()) * 10 + digit_val(s.last())
    }
}

/// The denoted number can only grow as more characters are read.
proof fn lemma_dec_value_take(s: Seq<char>, j: int)
    requires
        0 <= j <= s.len(),
    ensures
        dec_value(s.take(j)) <= dec_value(s),
    decreases s.len() - j,
{
    if j == s.len() {
        assert(s.take(j) =~= s);
    } else {
        assert(s.take(j + 1).drop_last() =~= s.take(j));
        assert(dec_value(s.take(j + 1)) == dec_value(s.take(j)) * 10 + digit_val(s.take(j + 1).last()));
        lemma_dec_value_take(s, j + 1);
    }
}

/// Parse a string of decimal digits into a 32-bit number.  Returns `None`
/// when the string is empty, holds a non-digit, or denotes a number that does
/// not fit.
pub fn parse_u32(s: &str) -> (r: Option<u32>)
    ensures
        match r {
            Some(v) => s@.len() > 0 && is_digit_seq(s@) && dec_value(s@) == v as nat,
            None => s@.len() == 0 || !is_digit_seq(s@) || dec_value(s@) > u32::MAX,
        },
{
    let n = s.unicode_len();
    if n == 0 {
        return None;
    }
    let mut acc: u64 = 0;
    let mut i: usize = 0;
    proof {
        assert(s@.take(0) =~= Seq::<char>::empty());
    }
    while i < n
        invariant
            n == s@.len(),
            0 <= i <= n,
            forall|j: int| 0 <= j < i ==> is_digit(s@[j]),
            acc as nat == dec_value(s@.take(i as int)),
            acc <= u32::MAX,
        decreases n - i,
    {
        let c = s.get_char(i);
        let code = c as u32;
        if code < 48 || code > 57 {
            proof {
                assert(!is_digit(s@[i as int]));
            }
            return None;
        }
        let d = (code - 48) as u64;
        let next = acc * 10 + d;
        proof {
            assert(s@.take(i as int + 1).drop_last() =~= s@.take(i as int));
            assert(s@.take(i as int + 1).last() == s@[i as int]);
        }
        if next > 0xFFFF_FFFF {
            proof {
                lemma_dec_value_take(s@, i as int + 1);
            }
            return None;
        }
        acc = next;
        i += 1;
    }
    proof {
        assert(s@.take(n as int) =~= s@);
    }
    Some(acc as u32)
}

} // verus!
