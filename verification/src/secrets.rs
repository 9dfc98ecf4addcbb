//! Parsing of `KEY=VALUE` secret assignments given on the command line.
use vstd::prelude::*;

use crate::text::{trim, trim_bounds};

verus! {

/// Why a list of secret assignments was refused.
#[derive(Debug, Clone, PartialEq, Eq)]
pub enum SecretParseError {
    /// An assignment without `=`; it carries the assignment as given.
    InvalidFormat(String),
    /// An assignment whose key is blank.
    EmptyKey,
}

/// The mathematical form of [`SecretParseError`].
pub enum SecretParseFault {
    InvalidFormat(Seq<char>),
    EmptyKey,
}

impl View for SecretParseError {
    type V = SecretParseFault;

    open spec fn view(&self) -> SecretParseFault {
        match self {
            SecretParseError::InvalidFormat(item) => SecretParseFault::InvalidFormat(item@),
            SecretParseError::EmptyKey => SecretParseFault::EmptyKey,
        }
    }
}

/// `i` is the position of the first `=` in `s`.
pub open spec fn is_first_eq(s: Seq<char>, i: int) -> bool {
    &&& 0 <= i < s.len()
    &&& s[i] == '='
    &&& forall|k: int| 0 <= k < i ==> s[k] != '='
}

/// `str::split_once('=')`: the parts before and after the first `=`.
pub open spec fn split_once_eq(s: Seq<char>) -> Option<(Seq<char>, Seq<char>)> {
    if exists|i: int| is_first_eq(s, i) {
        let i = choose|i: int| is_first_eq(s, i);
        Some((s.take(i), s.skip(i + 1)))
    } else {
        None
    }
}

/// What one assignment contributes: nothing when it is blank, else the
/// pair it names or the reason it is refused. The key and the value are
/// the parts of the trimmed assignment around its first `=`.
pub open spec fn parse_item(item: Seq<char>) -> Option<Result<(Seq<char>, Seq<char>), SecretParseFault>> {
    let t = trim(item);
    if t.len() == 0 {
        None
    } else {
        match split_once_eq(t) {
            None => Some(Err(SecretParseFault::InvalidFormat(item))),
            Some((k, v)) => if trim(k).len() == 0 {
                Some(Err(SecretParseFault::EmptyKey))
            } else {
                Some(Ok((k, v)))
            },
        }
    }
}

/// The pairs named by a list of assignments, in order, or the fault of the
/// first assignment that is refused.
pub open spec fn parse_pairs_spec(items: Seq<Seq<char>>) -> Result<Seq<(Seq<char>, Seq<char>)>, SecretParseFault>
    decreases items.len(),
{
    if items.len() == 0 {
        Ok(seq![])
    } else {
        match parse_pairs_spec(items.drop_last()) {
            Err(e) => Err(e),
            Ok(ps) => match parse_item(items.last()) {
                None => Ok(ps),
                Some(Err(e)) => Err(e),
                Some(Ok(p)) => Ok(ps.push(p)),
            },
        }
    }
}

/// Once a prefix of the assignments is refused, the whole list is refused
/// for the same reason.
proof fn lemma_refusal_persists(items: Seq<Seq<char>>, n: int, e: SecretParseFault)
    requires
        0 <= n <= items.len(),
        parse_pairs_spec(items.take(n)) == Err::<Seq<(Seq<char>, Seq<char>)>, SecretParseFault>(e),
    ensures
        parse_pairs_spec(items) == Err::<Seq<(Seq<char>, Seq<char>)>, SecretParseFault>(e),
    decreases items.len(),
{
    if n == items.len() {
        assert(items.take(n) =~= items);
    } else {
        assert(items.drop_last().take(n) =~= items.take(n));
        lemma_refusal_persists(items.drop_last(), n, e);
    }
}

pub open spec fn strings_view(v: Seq<String>) -> Seq<Seq<char>> {
    v.map_values(|s: String| s@)
}

pub open spec fn pairs_view(v: Seq<(String, String)>) -> Seq<(Seq<char>, Seq<char>)> {
    v.map_values(|p: (String, String)| (p.0@, p.1@))
}

/// The message shown for an error.
pub open spec fn secret_error_message(e: SecretParseFault) -> Seq<char> {
    match e {
        SecretParseFault::InvalidFormat(item) => "Invalid secret format: "@ + item,
        SecretParseFault::EmptyKey => "Secret key cannot be empty"@,
    }
}

impl SecretParseError {
    /// The message of the error, as displayed.
    pub fn to_string(&self) -> (r: String)
        ensures
            r@ == secret_error_message(self@),
    {
        match self {
            SecretParseError::InvalidFormat(item) => {
                String::from_str("Invalid secret format: ").concat(item.as_str())
            },
            SecretParseError::EmptyKey => String::from_str("Secret key cannot be empty"),
        }
    }
}

/// Reads `KEY=VALUE` assignments. Blank entries are skipped; each other
/// entry is trimmed and split at its first `=`. Fails on the first entry
/// without `=`, or whose key is blank.
pub fn parse_secret_pairs(raw: &[String]) -> (r: Result<Vec<(String, String)>, SecretParseError>)
    ensures
        match r {
            Ok(pairs) => parse_pairs_spec(strings_view(raw@)) == Ok::<
                Seq<(Seq<char>, Seq<char>)>,
                SecretParseFault,
            >(pairs_view(pairs@)),
            Err(e) => parse_pairs_spec(strings_view(raw@)) == Err::<
                Seq<(Seq<char>, Seq<char>)>,
                SecretParseFault,
            >(e@),
        },
{
    let ghost items = strings_view(raw@);
    let mut pairs: Vec<(String, String)> = Vec::new();
    let mut i: usize = 0;
    assert(items.take(0) =~= Seq::<Seq<char>>::empty());
    assert(pairs_view(pairs@) =~= Seq::<(Seq<char>, Seq<char>)>::empty());
    while i < raw.len()
        invariant
            i <= raw@.len(),
            items == strings_view(raw@),
            parse_pairs_spec(items.take(i as int)) == Ok::<
                Seq<(Seq<char>, Seq<char>)>,
                SecretParseFault,
            >(pairs_view(pairs@)),
        decreases raw@.len() - i,
    {
        assert(items.take(i + 1).drop_last() =~= items.take(i as int));
        let item = raw[i].as_str();
        assert(items.take(i + 1).last() == item@);
        let (start, end) = trim_bounds(item);
        let ghost t = item@.subrange(start as int, end as int);
        if start == end {
            assert(t.len() == 0);
        } else {
            let mut k: usize = start;
            while k < end && item.get_char(k) != '='
                invariant
                    start <= k <= end <= item@.len(),
                    forall|m: int| start <= m < k ==> item@[m] != '=',
                decreases end - k,
            {
                k = k + 1;
            }
            if k == end {
                assert forall|j: int| !is_first_eq(t, j) by {
                    if is_first_eq(t, j) {
                        assert(item@[start + j] == '=');
                    }
                }
                let e = SecretParseError::InvalidFormat(raw[i].clone());
                proof {
                    lemma_refusal_persists(items, i + 1, e@);
                }
                return Err(e);
            }
            let ghost j = k - start;
            assert(is_first_eq(t, j as int)) by {
                assert forall|m: int| 0 <= m < j implies t[m] != '=' by {
                    assert(item@[start + m] != '=');
                }
            }
            assert((choose|x: int| is_first_eq(t, x)) == j) by {
                let x = choose|x: int| is_first_eq(t, x);
                if x < j {
                    assert(t[x] != '=');
                } else if x > j {
                    assert(t[j as int] != '=');
                }
            }
            let key = item.substring_char(start, k);
            let value = item.substring_char(k + 1, end);
            assert(key@ =~= t.take(j as int));
            assert(value@ =~= t.skip(j + 1));
            let (ks, ke) = trim_bounds(key);
            if ks == ke {
                assert(trim(key@).len() == 0);
                proof {
                    lemma_refusal_persists(items, i + 1, SecretParseFault::EmptyKey);
                }
                return Err(SecretParseError::EmptyKey);
            }
            let ghost before = pairs@;
            pairs.push((key.to_owned(), value.to_owned()));
            assert(pairs_view(pairs@) =~= pairs_view(before).push((key@, value@)));
        }
        i = i + 1;
    }
    assert(items.take(raw@.len() as int) =~= items);
    Ok(pairs)
}

} // verus!

verus! {

/// A key as the parser yields it: not blank, and free of `=`.
pub open spec fn well_formed_key(k: Seq<char>) -> bool {
    trim(k).len() > 0 && !k.contains('=')
}

/// A pair that survives being written as `KEY=VALUE` and read back: its key
/// is well formed and does not start with whitespace, and its value does
/// not end with whitespace.
pub open spec fn writable_pair(p: (Seq<char>, Seq<char>)) -> bool {
    &&& well_formed_key(p.0)
    &&& !crate::text::is_ws(p.0[0])
    &&& p.1.len() > 0 ==> !crate::text::is_ws(p.1.last())
}

/// The assignment `KEY=VALUE` for a pair.
pub open spec fn assignment(p: (Seq<char>, Seq<char>)) -> Seq<char> {
    p.0 + seq!['='] + p.1
}

proof fn lemma_item_key_well_formed(item: Seq<char>)
    requires
        parse_item(item) matches Some(Ok(_)),
    ensures
        parse_item(item) matches Some(Ok(p)) && well_formed_key(p.0),
{
    let t = trim(item);
    let i = choose|i: int| is_first_eq(t, i);
    let k = t.take(i);
    assert forall|m: int| 0 <= m < k.len() implies k[m] != '=' by {
        assert(t[m] != '=');
    }
}

/// Every pair the parser yields has a key that is not blank and holds no
/// `=`.
pub proof fn lemma_parsed_keys_well_formed(items: Seq<Seq<char>>)
    ensures
        parse_pairs_spec(items) matches Ok(ps) ==> forall|j: int|
            0 <= j < ps.len() ==> well_formed_key(#[trigger] ps[j].0),
    decreases items.len(),
{
    if items.len() > 0 {
        lemma_parsed_keys_well_formed(items.drop_last());
        if parse_item(items.last()) matches Some(Ok(_)) {
            lemma_item_key_well_formed(items.last());
        }
    }
}

proof fn lemma_assignment_parses(p: (Seq<char>, Seq<char>))
    requires
        writable_pair(p),
    ensures
        parse_item(assignment(p)) == Some(Ok::<(Seq<char>, Seq<char>), SecretParseFault>(p)),
{
    let (k, v) = p;
    let s = assignment(p);
    let i = k.len() as int;
    assert(s[0] == k[0]);
    assert(crate::text::trim_start(s) == s);
    if v.len() > 0 {
        assert(s.last() == v.last());
    } else {
        assert(s.last() == '=');
    }
    assert(crate::text::trim_end(s) == s);
    assert(trim(s) == s);
    assert(is_first_eq(s, i)) by {
        assert forall|m: int| 0 <= m < i implies s[m] != '=' by {
            assert(s[m] == k[m]);
        }
    }
    let c = choose|x: int| is_first_eq(s, x);
    assert(c == i) by {
        if c < i {
            assert(s[c] == k[c]);
        } else if c > i {
            assert(s[i] == '=');
        }
    }
    assert(s.take(i) =~= k);
    assert(s.skip(i + 1) =~= v);
}

/// Writing pairs as `KEY=VALUE` assignments and parsing them gives the
/// pairs back, when each key is well formed and does not start with
/// whitespace and each value does not end with whitespace.
pub proof fn lemma_assignments_round_trip(pairs: Seq<(Seq<char>, Seq<char>)>)
    requires
        forall|j: int| 0 <= j < pairs.len() ==> writable_pair(#[trigger] pairs[j]),
    ensures
        parse_pairs_spec(pairs.map_values(|p: (Seq<char>, Seq<char>)| assignment(p))) == Ok::<
            Seq<(Seq<char>, Seq<char>)>,
            SecretParseFault,
        >(pairs),
    decreases pairs.len(),
{
    let items = pairs.map_values(|p: (Seq<char>, Seq<char>)| assignment(p));
    if pairs.len() == 0 {
        assert(items =~= Seq::<Seq<char>>::empty());
        assert(pairs =~= Seq::<(Seq<char>, Seq<char>)>::empty());
    } else {
        let front = pairs.drop_last();
        assert(items.drop_last() =~= front.map_values(|p: (Seq<char>, Seq<char>)| assignment(p)));
        lemma_assignments_round_trip(front);
        assert(writable_pair(pairs[pairs.len() - 1]));
        lemma_assignment_parses(pairs.last());
        assert(front.push(pairs.last()) =~= pairs);
    }
}

} // verus!
