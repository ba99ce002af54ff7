//! Request parameters and the merge of caller-supplied values with the
//! defaults stored in a method.

use vstd::prelude::*;
use vstd::string::*;
use crate::text::{
    count_of, remove_all, same_text, starts_with, text_without, trim, trimmed,
};

verus! {

/// The channel through which a parameter travels.
#[derive(Clone, Copy, Debug, PartialEq, Eq, Structural)]
pub enum ParameterKind {
    Url,
    Header,
    Body,
}

/// What a parameter is: its channel, its key and the value it carries, if any.
pub struct ParameterView {
    pub kind: ParameterKind,
    pub key: Seq<char>,
    pub value: Option<Seq<char>>,
}

/// One named value of a method, with an optional default.
#[derive(Debug, PartialEq, Clone)]
pub enum RequestParameter {
    Url(String, Option<String>),
    Header(String, Option<String>),
    Body(String, Option<String>),
}

/// The characters of an optional text.
pub open spec fn text_view(value: Option<String>) -> Option<Seq<char>> {
    match value {
        Some(v) => Some(v@),
        None => None,
    }
}

impl View for RequestParameter {
    type V = ParameterView;

    open spec fn view(&self) -> ParameterView {
        match *self {
            RequestParameter::Url(k, v) => ParameterView {
                kind: ParameterKind::Url,
                key: k@,
                value: text_view(v),
            },
            RequestParameter::Header(k, v) => ParameterView {
                kind: ParameterKind::Header,
                key: k@,
                value: text_view(v),
            },
            RequestParameter::Body(k, v) => ParameterView {
                kind: ParameterKind::Body,
                key: k@,
                value: text_view(v),
            },
        }
    }
}

/// The value that the caller supplies for `key` on channel `kind`: that of the
/// last entry of `overrides` with this channel and key that carries a value.
/// Entries without a value count as not supplied.
pub open spec fn override_value(
    overrides: Seq<RequestParameter>,
    kind: ParameterKind,
    key: Seq<char>,
) -> Option<Seq<char>>
    decreases overrides.len(),
{
    if overrides.len() == 0 {
        None
    } else {
        let last = overrides.last()@;
        if last.kind == kind && last.key == key && last.value.is_some() {
            last.value
        } else {
            override_value(overrides.drop_last(), kind, key)
        }
    }
}

/// The value that a stored parameter takes in a request: the caller's value
/// where one is supplied, else the stored default, else none.
pub open spec fn resolved_value(stored: ParameterView, overrides: Seq<RequestParameter>) -> Option<
    Seq<char>,
> {
    match override_value(overrides, stored.kind, stored.key) {
        Some(v) => Some(v),
        None => stored.value,
    }
}

/// The key/value pairs that the stored parameters of channel `kind` emit, in
/// the order in which they are stored. A parameter without any value emits
/// nothing.
pub open spec fn emitted_pairs(
    stored: Seq<RequestParameter>,
    overrides: Seq<RequestParameter>,
    kind: ParameterKind,
) -> Seq<(Seq<char>, Seq<char>)>
    decreases stored.len(),
{
    if stored.len() == 0 {
        Seq::empty()
    } else {
        let rest = emitted_pairs(stored.drop_last(), overrides, kind);
        let p = stored.last()@;
        match resolved_value(p, overrides) {
            Some(v) => if p.kind == kind {
                rest.push((p.key, v))
            } else {
                rest
            },
            None => rest,
        }
    }
}

/// The key/value pairs that the stored defaults alone give on channel `kind`.
pub open spec fn default_pairs(stored: Seq<RequestParameter>, kind: ParameterKind) -> Seq<
    (Seq<char>, Seq<char>),
>
    decreases stored.len(),
{
    if stored.len() == 0 {
        Seq::empty()
    } else {
        let rest = default_pairs(stored.drop_last(), kind);
        let p = stored.last()@;
        match p.value {
            Some(v) => if p.kind == kind {
                rest.push((p.key, v))
            } else {
                rest
            },
            None => rest,
        }
    }
}

/// Without values from the caller, what is emitted is what the stored
/// defaults give.
pub proof fn lemma_defaults_without_overrides(stored: Seq<RequestParameter>, kind: ParameterKind)
    ensures
        emitted_pairs(stored, Seq::empty(), kind) == default_pairs(stored, kind),
    decreases stored.len(),
{
    if stored.len() > 0 {
        lemma_defaults_without_overrides(stored.drop_last(), kind);
        assert(override_value(Seq::empty(), stored.last()@.kind, stored.last()@.key).is_none());
    }
}

/// A value that the caller supplies for a key is the one that counts for it,
/// unless a later entry of the list supplies another.
pub proof fn lemma_supplied_value_counts(overrides: Seq<RequestParameter>, i: int)
    requires
        0 <= i < overrides.len(),
        overrides[i]@.value.is_some(),
        forall|j: int|
            i < j < overrides.len() ==> !(overrides[j]@.kind == overrides[i]@.kind
                && overrides[j]@.key == overrides[i]@.key && overrides[j]@.value.is_some()),
    ensures
        override_value(overrides, overrides[i]@.kind, overrides[i]@.key) == overrides[i]@.value,
    decreases overrides.len(),
{
    if i < overrides.len() - 1 {
        let rest = overrides.drop_last();
        assert(rest[i] == overrides[i]);
        assert forall|j: int| i < j < rest.len() implies !(rest[j]@.kind == rest[i]@.kind
            && rest[j]@.key == rest[i]@.key && rest[j]@.value.is_some()) by {
            assert(rest[j] == overrides[j]);
        }
        lemma_supplied_value_counts(rest, i);
    }
}

/// What the stored parameters up to some position emit is the beginning of
/// what all of them emit: output follows the order in which the parameters
/// are stored.
pub proof fn lemma_emitted_in_stored_order(
    stored: Seq<RequestParameter>,
    overrides: Seq<RequestParameter>,
    kind: ParameterKind,
    n: int,
)
    requires
        0 <= n <= stored.len(),
    ensures
        emitted_pairs(stored.take(n), overrides, kind).is_prefix_of(
            emitted_pairs(stored, overrides, kind),
        ),
    decreases stored.len() - n,
{
    if n < stored.len() {
        lemma_emitted_in_stored_order(stored, overrides, kind, n + 1);
        assert(stored.take(n + 1).drop_last() =~= stored.take(n));
        let shorter = emitted_pairs(stored.take(n), overrides, kind);
        let longer = emitted_pairs(stored.take(n + 1), overrides, kind);
        let all = emitted_pairs(stored, overrides, kind);
        assert(shorter.is_prefix_of(longer));
        assert(shorter =~= all.subrange(0, shorter.len() as int));
    } else {
        assert(stored.take(n) =~= stored);
    }
}

/// What the stored parameter at position `i` adds to the output: the
/// caller's value for its key replaces the stored default; the default
/// counts where the caller supplies nothing; a parameter without either, or
/// of another channel, adds nothing.
pub proof fn lemma_override_replaces_default(
    stored: Seq<RequestParameter>,
    overrides: Seq<RequestParameter>,
    kind: ParameterKind,
    i: int,
)
    requires
        0 <= i < stored.len(),
    ensures
        ({
            let before = emitted_pairs(stored.take(i), overrides, kind);
            let upto = emitted_pairs(stored.take(i + 1), overrides, kind);
            let p = stored[i]@;
            if p.kind != kind {
                upto == before
            } else {
                match override_value(overrides, kind, p.key) {
                    Some(v) => upto == before.push((p.key, v)),
                    None => match p.value {
                        Some(d) => upto == before.push((p.key, d)),
                        None => upto == before,
                    },
                }
            }
        }),
{
    assert(stored.take(i + 1).drop_last() =~= stored.take(i));
    assert(stored.take(i + 1).last() == stored[i]);
}

/// Two lists of caller's values that supply the same value for every key
/// give the same output, whatever the order of their entries.
pub proof fn lemma_override_order_is_irrelevant(
    stored: Seq<RequestParameter>,
    first: Seq<RequestParameter>,
    second: Seq<RequestParameter>,
    kind: ParameterKind,
)
    requires
        forall|key: Seq<char>|
            override_value(first, kind, key) == override_value(second, kind, key),
    ensures
        emitted_pairs(stored, first, kind) == emitted_pairs(stored, second, kind),
    decreases stored.len(),
{
    if stored.len() > 0 {
        lemma_override_order_is_irrelevant(stored.drop_last(), first, second, kind);
    }
}

/// The characters of each pair of texts.
pub open spec fn pairs_view(pairs: Seq<(String, String)>) -> Seq<(Seq<char>, Seq<char>)> {
    Seq::new(pairs.len(), |i: int| (pairs[i].0@, pairs[i].1@))
}

/// The tag that a channel is written with.
pub open spec fn kind_tag(kind: ParameterKind) -> Seq<char> {
    match kind {
        ParameterKind::Url => "URL"@,
        ParameterKind::Header => "HEADER"@,
        ParameterKind::Body => "BODY"@,
    }
}

/// A parameter as a text: the tag of its channel, then in brackets the key,
/// a colon between spaces, and the value, or `None` where it has none.
pub open spec fn rendering(p: ParameterView) -> Seq<char> {
    kind_tag(p.kind) + "("@ + p.key + " : "@ + (match p.value {
        Some(v) => v,
        None => "None"@,
    }) + ")"@
}

/// The key and the value that a text holds once the tag `tag` and all
/// brackets are taken out of it: the parts before and behind its one colon,
/// each without the white space at its ends. The value `None` stands for no
/// value. A text with no colon, or with more than one, holds neither.
pub open spec fn parsed_pair(input: Seq<char>, tag: Seq<char>) -> Option<
    (Seq<char>, Option<Seq<char>>),
> {
    let bare = text_without(text_without(text_without(input, tag), "("@), ")"@);
    if count_of(bare, ':') != 1 {
        None
    } else {
        let at = bare.index_of(':');
        let value = trimmed(bare.subrange(at + 1, bare.len() as int));
        Some(
            (
                trimmed(bare.subrange(0, at)),
                if value == "None"@ {
                    None
                } else {
                    Some(value)
                },
            ),
        )
    }
}

/// The channel that a text names: that of the first tag, in the order URL,
/// header, body, with which the text begins.
pub open spec fn parsed_kind(input: Seq<char>) -> Option<ParameterKind> {
    if "URL"@.is_prefix_of(input) {
        Some(ParameterKind::Url)
    } else if "HEADER"@.is_prefix_of(input) {
        Some(ParameterKind::Header)
    } else if "BODY"@.is_prefix_of(input) {
        Some(ParameterKind::Body)
    } else {
        None
    }
}

/// The parameter that a text holds, if it holds one.
pub open spec fn parsed_parameter(input: Seq<char>) -> Option<ParameterView> {
    match parsed_kind(input) {
        Some(kind) => match parsed_pair(input, kind_tag(kind)) {
            Some(pair) => Some(ParameterView { kind, key: pair.0, value: pair.1 }),
            None => None,
        },
        None => None,
    }
}

/// Reads the key and the value of a parameter from a text, leaving out the
/// tag `param_name` and all brackets.
pub fn deserialization_helper(input: &str, param_name: &str) -> (r: Result<
    (String, Option<String>),
    (),
>)
    ensures
        match r {
            Ok(pair) => parsed_pair(input@, param_name@) == Some((pair.0@, text_view(pair.1))),
            Err(_) => parsed_pair(input@, param_name@).is_none(),
        },
{
    let without_tag = remove_all(input, param_name);
    let without_open = remove_all(without_tag.as_str(), "(");
    let bare = remove_all(without_open.as_str(), ")");
    let text = bare.as_str();
    let n = text.unicode_len();
    let mut colons: usize = 0;
    let mut first: usize = 0;
    let mut i: usize = 0;
    while i < n
        invariant
            i <= n,
            n == text@.len(),
            colons == count_of(text@.take(i as int), ':'),
            colons <= i,
            colons >= 1 ==> first < i && text@[first as int] == ':',
            colons == 1 ==> forall|j: int| 0 <= j < i && j != first ==> text@[j] != ':',
            colons == 0 ==> forall|j: int| 0 <= j < i ==> text@[j] != ':',
        decreases n - i,
    {
        proof {
            assert(text@.take(i + 1).drop_last() =~= text@.take(i as int));
            assert(text@.take(i + 1).last() == text@[i as int]);
        }
        if text.get_char(i) == ':' {
            if colons == 0 {
                first = i;
            }
            colons += 1;
        }
        i += 1;
    }
    proof {
        assert(text@.take(n as int) =~= text@);
    }
    if colons != 1 {
        return Err(());
    }
    proof {
        let at = text@.index_of(':');
        assert(text@[at] == ':');
        assert(at == first);
    }
    let key = trim(text.substring_char(0, first));
    let value = trim(text.substring_char(first + 1, n));
    if same_text(value, "None") {
        return Ok((key.to_owned(), None));
    }
    Ok((key.to_owned(), Some(value.to_owned())))
}

impl RequestParameter {
    /// This parameter as a text.
    pub fn to_string(&self) -> (r: String)
        ensures
            r@ == rendering(self@),
    {
        let mut r = match self {
            RequestParameter::Url(_, _) => "URL".to_owned(),
            RequestParameter::Header(_, _) => "HEADER".to_owned(),
            RequestParameter::Body(_, _) => "BODY".to_owned(),
        };
        r.append("(");
        r.append(self.key().as_str());
        r.append(" : ");
        match self.value() {
            Some(v) => {
                r.append(v.as_str());
            },
            None => {
                r.append("None");
            },
        }
        r.append(")");
        r
    }

    /// Reads a parameter from a text that begins with the tag of a channel.
    pub fn from_str(input: &str) -> (r: Result<RequestParameter, ()>)
        ensures
            match r {
                Ok(p) => parsed_parameter(input@) == Some(p@),
                Err(_) => parsed_parameter(input@).is_none(),
            },
    {
        if starts_with(input, "URL") {
            match deserialization_helper(input, "URL") {
                Ok(pair) => Ok(RequestParameter::Url(pair.0, pair.1)),
                Err(_) => Err(()),
            }
        } else if starts_with(input, "HEADER") {
            match deserialization_helper(input, "HEADER") {
                Ok(pair) => Ok(RequestParameter::Header(pair.0, pair.1)),
                Err(_) => Err(()),
            }
        } else if starts_with(input, "BODY") {
            match deserialization_helper(input, "BODY") {
                Ok(pair) => Ok(RequestParameter::Body(pair.0, pair.1)),
                Err(_) => Err(()),
            }
        } else {
            Err(())
        }
    }

    /// The channel of this parameter.
    pub fn kind(&self) -> (r: ParameterKind)
        ensures
            r == self@.kind,
    {
        match self {
            RequestParameter::Url(_, _) => ParameterKind::Url,
            RequestParameter::Header(_, _) => ParameterKind::Header,
            RequestParameter::Body(_, _) => ParameterKind::Body,
        }
    }

    /// The key of this parameter.
    pub fn key(&self) -> (r: &String)
        ensures
            r@ == self@.key,
    {
        match self {
            RequestParameter::Url(k, _) => k,
            RequestParameter::Header(k, _) => k,
            RequestParameter::Body(k, _) => k,
        }
    }

    /// The value that this parameter carries, if any.
    pub fn value(&self) -> (r: &Option<String>)
        ensures
            text_view(*r) == self@.value,
    {
        match self {
            RequestParameter::Url(_, v) => v,
            RequestParameter::Header(_, v) => v,
            RequestParameter::Body(_, v) => v,
        }
    }
}

/// Looks up the value that the caller supplies for `key` on channel `kind`.
pub fn find_override<'a>(overrides: &'a [RequestParameter], kind: ParameterKind, key: &String) -> (r:
    Option<&'a String>)
    ensures
        match r {
            Some(v) => override_value(overrides@, kind, key@) == Some(v@),
            None => override_value(overrides@, kind, key@).is_none(),
        },
{
    let mut found: Option<&'a String> = None;
    let mut i: usize = 0;
    while i < overrides.len()
        invariant
            i <= overrides.len(),
            match found {
                Some(v) => override_value(overrides@.take(i as int), kind, key@) == Some(v@),
                None => override_value(overrides@.take(i as int), kind, key@).is_none(),
            },
        decreases overrides.len() - i,
    {
        let entry = &overrides[i];
        proof {
            assert(overrides@.take(i + 1).drop_last() =~= overrides@.take(i as int));
            assert(overrides@.take(i + 1).last() == overrides@[i as int]);
        }
        let same_key = *entry.key() == *key;
        if entry.kind() == kind && same_key {
            match entry.value() {
                Some(v) => {
                    found = Some(v);
                },
                None => {},
            }
        }
        i += 1;
    }
    proof {
        assert(overrides@.take(i as int) =~= overrides@);
    }
    found
}

/// Merges the caller's values into the stored parameters of channel `kind`
/// and returns the pairs to emit, in stored order.
pub fn merge_parameters(
    stored: &Vec<RequestParameter>,
    overrides: &[RequestParameter],
    kind: ParameterKind,
) -> (pairs: Vec<(String, String)>)
    ensures
        pairs_view(pairs@) == emitted_pairs(stored@, overrides@, kind),
{
    let mut pairs: Vec<(String, String)> = Vec::new();
    let mut i: usize = 0;
    assert(pairs_view(pairs@) =~= emitted_pairs(stored@.take(0), overrides@, kind));
    while i < stored.len()
        invariant
            i <= stored.len(),
            pairs_view(pairs@) == emitted_pairs(stored@.take(i as int), overrides@, kind),
        decreases stored.len() - i,
    {
        let p = &stored[i];
        proof {
            assert(stored@.take(i + 1).drop_last() =~= stored@.take(i as int));
            assert(stored@.take(i + 1).last() == stored@[i as int]);
        }
        let ghost before = pairs@;
        if p.kind() == kind {
            match find_override(overrides, kind, p.key()) {
                Some(v) => {
                    pairs.push((p.key().clone(), v.clone()));
                    assert(pairs_view(pairs@) =~= pairs_view(before).push((p@.key, v@)));
                },
                None => {
                    match p.value() {
                        Some(d) => {
                            pairs.push((p.key().clone(), d.clone()));
                            assert(pairs_view(pairs@) =~= pairs_view(before).push((p@.key, d@)));
                        },
                        None => {},
                    }
                },
            }
        }
        i += 1;
    }
    proof {
        assert(stored@.take(i as int) =~= stored@);
    }
    pairs
}

} // verus!
