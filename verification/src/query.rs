//! The query encoder: from an ordered list of parameters to the text that
//! follows the `?` of a URI.
use crate::text::{push_char, views};
use vstd::prelude::*;
use vstd::string::*;
use vstd::utf8::encode_utf8;

verus! {

/// What a request holds for one query parameter.
pub enum QueryValue {
    /// A scalar that may be absent. An absent one renders nothing.
    Absentable(Option<String>),
    /// Any number of scalars, rendered one pair each under the same key, in
    /// order. An empty list renders nothing.
    Repeated(Vec<String>),
}

/// One named query parameter.
pub struct QueryParam {
    pub name: String,
    pub value: QueryValue,
}

/// Mathematical model of a [`QueryValue`].
pub ghost enum QueryValueModel {
    Absentable(Option<Seq<char>>),
    Repeated(Seq<Seq<char>>),
}

/// Mathematical model of a [`QueryParam`].
pub ghost struct QueryParamModel {
    pub name: Seq<char>,
    pub value: QueryValueModel,
}

impl View for QueryValue {
    type V = QueryValueModel;

    open spec fn view(&self) -> QueryValueModel {
        match self {
            QueryValue::Absentable(Some(v)) => QueryValueModel::Absentable(Some(v@)),
            QueryValue::Absentable(None) => QueryValueModel::Absentable(None),
            QueryValue::Repeated(vs) => QueryValueModel::Repeated(views(vs@)),
        }
    }
}

impl View for QueryParam {
    type V = QueryParamModel;

    open spec fn view(&self) -> QueryParamModel {
        QueryParamModel { name: self.name@, value: self.value@ }
    }
}

/// The bytes that stand for themselves in a URI component: ASCII letters and
/// digits, `-`, `.`, `_` and `~`.
pub open spec fn is_unreserved(b: u8) -> bool {
    ||| 0x30 <= b <= 0x39
    ||| 0x41 <= b <= 0x5a
    ||| 0x61 <= b <= 0x7a
    ||| b == 0x2d
    ||| b == 0x2e
    ||| b == 0x5f
    ||| b == 0x7e
}

/// The upper-case hexadecimal digit for `n`, where `n < 16`.
pub open spec fn hex_digit(n: u8) -> char {
    if n < 10 {
        ((0x30 + n) as u8) as char
    } else {
        ((0x37 + n) as u8) as char
    }
}

/// One byte, percent-encoded: itself if unreserved, else `%` and two
/// hexadecimal digits.
pub open spec fn escape_byte(b: u8) -> Seq<char> {
    if is_unreserved(b) {
        seq![b as char]
    } else {
        seq!['%', hex_digit(b / 16), hex_digit(b % 16)]
    }
}

/// Every byte of `bytes` percent-encoded, in order.
pub open spec fn escape_bytes(bytes: Seq<u8>) -> Seq<char>
    decreases bytes.len(),
{
    if bytes.len() == 0 {
        Seq::empty()
    } else {
        escape_bytes(bytes.drop_last()) + escape_byte(bytes.last())
    }
}

/// The percent-encoding of a text: that of its UTF-8 bytes.
pub open spec fn percent_encoded(text: Seq<char>) -> Seq<char> {
    escape_bytes(encode_utf8(text))
}

/// One rendered `key=value` pair.
pub open spec fn pair_text(name: Seq<char>, value: Seq<char>) -> Seq<char> {
    percent_encoded(name) + seq!['='] + percent_encoded(value)
}

/// The pairs that the values `values` give under the key `name`, in order.
pub open spec fn repeated_pairs(name: Seq<char>, values: Seq<Seq<char>>) -> Seq<Seq<char>> {
    Seq::new(values.len(), |i: int| pair_text(name, values[i]))
}

/// The pairs that one parameter gives: none, one, or one for each value.
pub open spec fn param_pairs(param: QueryParamModel) -> Seq<Seq<char>> {
    match param.value {
        QueryValueModel::Absentable(None) => Seq::empty(),
        QueryValueModel::Absentable(Some(v)) => seq![pair_text(param.name, v)],
        QueryValueModel::Repeated(vs) => repeated_pairs(param.name, vs),
    }
}

/// The pairs of all parameters, in the order of the parameters.
pub open spec fn all_pairs(params: Seq<QueryParamModel>) -> Seq<Seq<char>>
    decreases params.len(),
{
    if params.len() == 0 {
        Seq::empty()
    } else {
        all_pairs(params.drop_last()) + param_pairs(params.last())
    }
}

/// The pairs joined by `&`.
pub open spec fn joined(pairs: Seq<Seq<char>>) -> Seq<char>
    decreases pairs.len(),
{
    if pairs.len() == 0 {
        Seq::empty()
    } else if pairs.len() == 1 {
        pairs[0]
    } else {
        joined(pairs.drop_last()) + seq!['&'] + pairs.last()
    }
}

/// The query text of a parameter list.
pub open spec fn query_text(params: Seq<QueryParamModel>) -> Seq<char> {
    joined(all_pairs(params))
}

fn unreserved(b: u8) -> (r: bool)
    ensures
        r == is_unreserved(b),
{
    (0x30 <= b && b <= 0x39) || (0x41 <= b && b <= 0x5a) || (0x61 <= b && b <= 0x7a) || b == 0x2d
        || b == 0x2e || b == 0x5f || b == 0x7e
}

fn hex_char(n: u8) -> (c: char)
    requires
        n < 16,
    ensures
        c == hex_digit(n),
{
    if n < 10 {
        (0x30 + n) as char
    } else {
        (0x37 + n) as char
    }
}

/// Appends the percent-encoding of `text` to `out`.
pub fn append_encoded(out: &mut String, text: &str)
    ensures
        final(out)@ == old(out)@ + percent_encoded(text@),
{
    let ghost start = out@;
    let bytes = text.as_bytes();
    let n: usize = bytes.len();
    let mut i: usize = 0;
    while i < n
        invariant
            i <= n,
            n == bytes@.len(),
            out@ == start + escape_bytes(bytes@.take(i as int)),
        decreases n - i,
    {
        let b: u8 = bytes[i];
        if unreserved(b) {
            push_char(out, b as char);
        } else {
            push_char(out, '%');
            push_char(out, hex_char(b / 16));
            push_char(out, hex_char(b % 16));
        }
        proof {
            let next = bytes@.take(i + 1);
            assert(next.drop_last() == bytes@.take(i as int));
            assert(next.last() == b);
        }
        i += 1;
    }
    proof {
        assert(bytes@.take(n as int) == bytes@);
    }
}

/// Percent-encodes one name or value.
pub fn encode_component(text: &str) -> (r: String)
    ensures
        r@ == percent_encoded(text@),
{
    let mut out = String::new();
    append_encoded(&mut out, text);
    out
}

/// Appends one `key=value` pair to `out`, after an `&` unless it is the first.
fn append_pair(
    out: &mut String,
    name: &str,
    value: &str,
    any: bool,
    Ghost(pairs): Ghost<Seq<Seq<char>>>,
)
    requires
        old(out)@ == joined(pairs),
        any == (pairs.len() > 0),
    ensures
        final(out)@ == joined(pairs.push(pair_text(name@, value@))),
{
    if any {
        push_char(out, '&');
    }
    append_encoded(out, name);
    push_char(out, '=');
    append_encoded(out, value);
    proof {
        let grown = pairs.push(pair_text(name@, value@));
        assert(grown.drop_last() == pairs);
        assert(grown.last() == pair_text(name@, value@));
    }
}

/// Renders the parameters as a query text: the pairs of the parameters in
/// their order, joined by `&`. Absent scalars and empty lists give no pair, so
/// a list without any present value renders as the empty text.
pub fn encode_query(params: &Vec<QueryParam>) -> (r: String)
    ensures
        r@ == query_text(views(params@)),
{
    let mut out = String::new();
    let ghost mut pairs: Seq<Seq<char>> = Seq::empty();
    let ghost models = views(params@);
    let mut any = false;
    let mut i: usize = 0;
    while i < params.len()
        invariant
            i <= params.len(),
            models == views(params@),
            pairs == all_pairs(models.take(i as int)),
            out@ == joined(pairs),
            any == (pairs.len() > 0),
        decreases params.len() - i,
    {
        let param = &params[i];
        let ghost before = pairs;
        match &param.value {
            QueryValue::Absentable(None) => {},
            QueryValue::Absentable(Some(v)) => {
                append_pair(&mut out, param.name.as_str(), v.as_str(), any, Ghost(pairs));
                proof {
                    pairs = pairs.push(pair_text(param.name@, v@));
                }
                any = true;
            },
            QueryValue::Repeated(vs) => {
                let ghost values = views(vs@);
                let mut j: usize = 0;
                while j < vs.len()
                    invariant
                        j <= vs.len(),
                        values == views(vs@),
                        pairs == before + repeated_pairs(param.name@, values).take(j as int),
                        out@ == joined(pairs),
                        any == (pairs.len() > 0),
                    decreases vs.len() - j,
                {
                    append_pair(
                        &mut out,
                        param.name.as_str(),
                        vs[j].as_str(),
                        any,
                        Ghost(pairs),
                    );
                    proof {
                        let all = repeated_pairs(param.name@, values);
                        assert(all.take(j + 1) == all.take(j as int).push(all[j as int]));
                        pairs = pairs.push(pair_text(param.name@, vs[j as int]@));
                        assert(pairs == before + all.take(j + 1));
                    }
                    any = true;
                    j += 1;
                }
                proof {
                    let all = repeated_pairs(param.name@, values);
                    assert(all.take(vs.len() as int) == all);
                }
            },
        }
        proof {
            let next = models.take(i + 1);
            assert(next.drop_last() == models.take(i as int));
            assert(next.last() == param@);
            assert(pairs == before + param_pairs(param@));
        }
        i += 1;
    }
    proof {
        assert(models.take(params.len() as int) == models);
    }
    out
}

/// `true` when the parameter holds no value: an absent scalar or an empty list.
pub open spec fn holds_nothing(param: QueryParamModel) -> bool {
    match param.value {
        QueryValueModel::Absentable(None) => true,
        QueryValueModel::Absentable(Some(_)) => false,
        QueryValueModel::Repeated(vs) => vs.len() == 0,
    }
}

/// Parameters that hold nothing render nothing: if every parameter is an
/// absent scalar or an empty list, the query text is empty.
pub proof fn lemma_nothing_present_renders_empty(params: Seq<QueryParamModel>)
    requires
        forall|i: int| 0 <= i < params.len() ==> holds_nothing(#[trigger] params[i]),
    ensures
        all_pairs(params) == Seq::<Seq<char>>::empty(),
        query_text(params) == Seq::<char>::empty(),
    decreases params.len(),
{
    if params.len() > 0 {
        lemma_nothing_present_renders_empty(params.drop_last());
        assert(holds_nothing(params.last()));
        assert(param_pairs(params.last()) == Seq::<Seq<char>>::empty());
    }
}

/// The pairs of two parameter lists, one after the other, are the pairs of
/// the first followed by those of the second.
pub proof fn lemma_all_pairs_concat(first: Seq<QueryParamModel>, second: Seq<QueryParamModel>)
    ensures
        all_pairs(first + second) == all_pairs(first) + all_pairs(second),
    decreases second.len(),
{
    if second.len() == 0 {
        assert(first + second == first);
    } else {
        lemma_all_pairs_concat(first, second.drop_last());
        assert((first + second).drop_last() == first + second.drop_last());
        assert((first + second).last() == second.last());
    }
}

/// Joining two lists of pairs, one after the other: the two joined texts with
/// an `&` between them, unless one of the lists is empty.
pub proof fn lemma_joined_concat(first: Seq<Seq<char>>, second: Seq<Seq<char>>)
    ensures
        joined(first + second) == if first.len() == 0 {
            joined(second)
        } else if second.len() == 0 {
            joined(first)
        } else {
            joined(first) + seq!['&'] + joined(second)
        },
    decreases second.len(),
{
    if first.len() == 0 {
        assert(first + second == second);
    } else if second.len() == 0 {
        assert(first + second == first);
    } else {
        let whole = first + second;
        assert(whole.drop_last() == first + second.drop_last());
        assert(whole.last() == second.last());
        lemma_joined_concat(first, second.drop_last());
        if second.len() == 1 {
            assert(second.drop_last().len() == 0);
            assert(joined(second) == second.last());
        }
    }
}

/// The text `middle` between `before` and `after`, with an `&` at each seam
/// where the neighbour is not empty.
pub open spec fn between(before: Seq<char>, middle: Seq<char>, after: Seq<char>) -> Seq<char> {
    let head = if before.len() == 0 {
        middle
    } else {
        before + seq!['&'] + middle
    };
    if after.len() == 0 {
        head
    } else {
        head + seq!['&'] + after
    }
}

/// A list of values renders as one pair for each value, all under the same
/// key, in the order of the values and joined by `&`, and stands in the query
/// text as one unbroken piece: between what the parameters before it render
/// and what the parameters after it render.
pub proof fn lemma_repeated_values_render_in_order(params: Seq<QueryParamModel>, k: int)
    requires
        0 <= k < params.len(),
        params[k].value is Repeated,
        params[k].value->Repeated_0.len() > 0,
    ensures
        query_text(params) == between(
            query_text(params.take(k)),
            joined(repeated_pairs(params[k].name, params[k].value->Repeated_0)),
            query_text(params.skip(k + 1)),
        ),
{
    let head = params.take(k);
    let tail = params.skip(k + 1);
    let own = repeated_pairs(params[k].name, params[k].value->Repeated_0);
    assert(params == head + seq![params[k]] + tail);
    lemma_all_pairs_concat(head + seq![params[k]], tail);
    lemma_all_pairs_concat(head, seq![params[k]]);
    assert(all_pairs(seq![params[k]]) == own) by {
        assert(seq![params[k]].drop_last() == Seq::<QueryParamModel>::empty());
        assert(all_pairs(Seq::<QueryParamModel>::empty()) == Seq::<Seq<char>>::empty());
        assert(Seq::<Seq<char>>::empty() + own == own);
    }
    let a = all_pairs(head);
    let c = all_pairs(tail);
    assert(all_pairs(params) == a + own + c);
    lemma_joined_concat(a + own, c);
    lemma_joined_concat(a, own);
    lemma_pairs_nonempty(head);
    lemma_pairs_nonempty(tail);
    lemma_joined_nonempty(a);
    lemma_joined_nonempty(c);
    lemma_joined_nonempty(own);
}

/// No parameter renders an empty pair: each pair holds at least its `=`.
pub proof fn lemma_pairs_nonempty(params: Seq<QueryParamModel>)
    ensures
        forall|i: int| 0 <= i < all_pairs(params).len() ==> (#[trigger] all_pairs(params)[i]).len() > 0,
    decreases params.len(),
{
    if params.len() > 0 {
        lemma_pairs_nonempty(params.drop_last());
        let head = all_pairs(params.drop_last());
        let own = param_pairs(params.last());
        assert forall|i: int| 0 <= i < all_pairs(params).len() implies (#[trigger] all_pairs(
            params,
        )[i]).len() > 0 by {
            if i < head.len() {
                assert(all_pairs(params)[i] == head[i]);
            } else {
                assert(all_pairs(params)[i] == own[i - head.len()]);
            }
        }
    }
}

/// Pairs joined give the empty text only where there is no pair.
pub proof fn lemma_joined_nonempty(pairs: Seq<Seq<char>>)
    requires
        forall|i: int| 0 <= i < pairs.len() ==> (#[trigger] pairs[i]).len() > 0,
    ensures
        joined(pairs).len() == 0 <==> pairs.len() == 0,
    decreases pairs.len(),
{
    if pairs.len() > 1 {
        lemma_joined_nonempty(pairs.drop_last());
    }
}

/// Two values under one key render as `key=a&key=b`: two whole pairs with the
/// key written out in each.
pub proof fn lemma_two_values_render_as_two_pairs(name: Seq<char>, a: Seq<char>, b: Seq<char>)
    ensures
        joined(repeated_pairs(name, seq![a, b])) == pair_text(name, a) + seq!['&'] + pair_text(
            name,
            b,
        ),
{
    let pairs = repeated_pairs(name, seq![a, b]);
    assert(pairs.len() == 2);
    assert(pairs.drop_last().len() == 1);
    assert(pairs.drop_last()[0] == pair_text(name, a));
    assert(pairs.last() == pair_text(name, b));
    assert(joined(pairs.drop_last()) == pair_text(name, a));
}

/// The characters that a query text is made of: the unreserved ones, `%`,
/// `=` and `&`.
pub open spec fn is_query_safe(c: char) -> bool {
    let n = c as u32;
    n < 128 && (is_unreserved(n as u8) || n == 0x25 || n == 0x3d || n == 0x26)
}

/// `true` when every character of `text` is query-safe.
pub open spec fn all_query_safe(text: Seq<char>) -> bool {
    forall|i: int| 0 <= i < text.len() ==> is_query_safe(#[trigger] text[i])
}

/// Percent-encoded bytes are query-safe, whatever the bytes.
pub proof fn lemma_escape_bytes_safe(bytes: Seq<u8>)
    ensures
        all_query_safe(escape_bytes(bytes)),
    decreases bytes.len(),
{
    if bytes.len() > 0 {
        lemma_escape_bytes_safe(bytes.drop_last());
        let head = escape_bytes(bytes.drop_last());
        let b = bytes.last();
        let tail = escape_byte(b);
        assert forall|i: int| 0 <= i < tail.len() implies is_query_safe(#[trigger] tail[i]) by {
            if is_unreserved(b) {
                assert(tail[0] == b as char);
                assert((b as char) as u32 == b);
            } else {
                let hi = b / 16;
                let lo = b % 16;
                assert(hi < 16 && lo < 16);
                assert(is_query_safe('%'));
                assert(is_query_safe(hex_digit(hi))) by {
                    assert(hex_digit(hi) as u32 == if hi < 10 {
                        0x30 + hi
                    } else {
                        0x37 + hi
                    });
                }
                assert(is_query_safe(hex_digit(lo))) by {
                    assert(hex_digit(lo) as u32 == if lo < 10 {
                        0x30 + lo
                    } else {
                        0x37 + lo
                    });
                }
            }
        }
        assert forall|i: int| 0 <= i < escape_bytes(bytes).len() implies is_query_safe(
            #[trigger] escape_bytes(bytes)[i],
        ) by {
            if i < head.len() {
                assert(escape_bytes(bytes)[i] == head[i]);
            } else {
                assert(escape_bytes(bytes)[i] == tail[i - head.len()]);
            }
        }
    }
}

/// Joined query-safe pairs are query-safe.
proof fn lemma_joined_safe(pairs: Seq<Seq<char>>)
    requires
        forall|i: int| 0 <= i < pairs.len() ==> all_query_safe(#[trigger] pairs[i]),
    ensures
        all_query_safe(joined(pairs)),
    decreases pairs.len(),
{
    if pairs.len() == 1 {
        assert(all_query_safe(pairs[0]));
    } else if pairs.len() > 1 {
        lemma_joined_safe(pairs.drop_last());
        let head = joined(pairs.drop_last());
        let last = pairs.last();
        assert(all_query_safe(last));
        assert(is_query_safe('&'));
        assert forall|i: int| 0 <= i < joined(pairs).len() implies is_query_safe(
            #[trigger] joined(pairs)[i],
        ) by {
            if i < head.len() {
                assert(joined(pairs)[i] == head[i]);
            } else if i == head.len() {
                assert(joined(pairs)[i] == '&');
            } else {
                assert(joined(pairs)[i] == last[i - head.len() - 1]);
            }
        }
    }
}

/// Every pair is query-safe.
proof fn lemma_pair_safe(name: Seq<char>, value: Seq<char>)
    ensures
        all_query_safe(pair_text(name, value)),
{
    let left = percent_encoded(name);
    let right = percent_encoded(value);
    lemma_escape_bytes_safe(encode_utf8(name));
    lemma_escape_bytes_safe(encode_utf8(value));
    assert(is_query_safe('='));
    assert forall|i: int| 0 <= i < pair_text(name, value).len() implies is_query_safe(
        #[trigger] pair_text(name, value)[i],
    ) by {
        if i < left.len() {
            assert(pair_text(name, value)[i] == left[i]);
        } else if i == left.len() {
            assert(pair_text(name, value)[i] == '=');
        } else {
            assert(pair_text(name, value)[i] == right[i - left.len() - 1]);
        }
    }
}

/// Every text can be rendered: whatever the names and values hold, the query
/// text is made of query-safe characters alone.
pub proof fn lemma_query_text_is_safe(params: Seq<QueryParamModel>)
    ensures
        all_query_safe(query_text(params)),
{
    lemma_all_pairs_safe(params);
    lemma_joined_safe(all_pairs(params));
}

proof fn lemma_all_pairs_safe(params: Seq<QueryParamModel>)
    ensures
        forall|i: int|
            0 <= i < all_pairs(params).len() ==> all_query_safe(#[trigger] all_pairs(params)[i]),
    decreases params.len(),
{
    if params.len() > 0 {
        lemma_all_pairs_safe(params.drop_last());
        let head = all_pairs(params.drop_last());
        let last = params.last();
        let own = param_pairs(last);
        assert forall|i: int| 0 <= i < own.len() implies all_query_safe(#[trigger] own[i]) by {
            match last.value {
                QueryValueModel::Absentable(None) => {},
                QueryValueModel::Absentable(Some(v)) => {
                    lemma_pair_safe(last.name, v);
                },
                QueryValueModel::Repeated(vs) => {
                    lemma_pair_safe(last.name, vs[i]);
                },
            }
        }
        assert forall|i: int| 0 <= i < all_pairs(params).len() implies all_query_safe(
            #[trigger] all_pairs(params)[i],
        ) by {
            if i < head.len() {
                assert(all_pairs(params)[i] == head[i]);
            } else {
                assert(all_pairs(params)[i] == own[i - head.len()]);
            }
        }
    }
}

} // verus!
