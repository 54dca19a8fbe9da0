use vstd::prelude::*;
use vstd::string::*;

verus! {

/// The JSON string literal that serde_json writes for a string: quoted and
/// escaped.
pub uninterp spec fn json_quoted(s: Seq<char>) -> Seq<char>;

pub open spec fn digit_char(d: int) -> char {
    seq!['0', '1', '2', '3', '4', '5', '6', '7', '8', '9'][d]
}

/// A natural number in decimal, without leading zeros.
pub open spec fn nat_text(n: nat) -> Seq<char>
    decreases n,
{
    if n < 10 {
        seq![digit_char(n as int)]
    } else {
        nat_text(n / 10).push(digit_char((n % 10) as int))
    }
}

/// An integer as a JSON number: decimal, with a leading `-` when negative.
pub open spec fn int_text(v: int) -> Seq<char> {
    if v < 0 {
        seq!['-'] + nat_text((-v) as nat)
    } else {
        nat_text(v as nat)
    }
}

/// The items joined by commas.
pub open spec fn join(items: Seq<Seq<char>>) -> Seq<char>
    decreases items.len(),
{
    if items.len() == 0 {
        Seq::empty()
    } else if items.len() == 1 {
        items[0]
    } else {
        join(items.drop_last()) + seq![','] + items.last()
    }
}

/// The elements of a JSON array of integers, without the brackets.
pub open spec fn ints_text(xs: Seq<i64>) -> Seq<char> {
    join(xs.map_values(|x: i64| int_text(x as int)))
}

/// The members `,"key":"value"` that follow `__name__` in a `metric` object,
/// one per already quoted pair, in the order given.
pub open spec fn members_text(pairs: Seq<(Seq<char>, Seq<char>)>) -> Seq<char>
    decreases pairs.len(),
{
    if pairs.len() == 0 {
        Seq::empty()
    } else {
        members_text(pairs.drop_last()) + seq![','] + pairs.last().0 + seq![':'] + pairs.last().1
    }
}

/// One record line, from the quoted metric name, the quoted label pairs in
/// order, the sample values and the timestamps in milliseconds.
pub open spec fn record_text(
    name: Seq<char>,
    pairs: Seq<(Seq<char>, Seq<char>)>,
    values: Seq<i64>,
    millis: Seq<i64>,
) -> Seq<char> {
    "{\"metric\":{\"__name__\":"@ + name + members_text(pairs) + "},\"values\":["@ + ints_text(
        values,
    ) + "],\"timestamps\":["@ + ints_text(millis) + "]}\r\n"@
}

/// The views of a vector of string pairs.
pub open spec fn pairs_view(v: Seq<(String, String)>) -> Seq<(Seq<char>, Seq<char>)> {
    v.map_values(|p: (String, String)| (p.0@, p.1@))
}

/// Relies on serde_json::to_string on a string slice: the quoted, escaped
/// JSON string. Writing into a `Vec` cannot fail.
#[verifier::external_body]
pub(crate) fn quote(s: &str) -> (r: String)
    ensures
        r@ == json_quoted(s@),
{
    serde_json::to_string(s).unwrap()
}

/// Relies on serde_json::to_string on an `i64`: the integer in decimal, with
/// a leading `-` when negative. Writing into a `Vec` cannot fail.
#[verifier::external_body]
fn int_json(v: i64) -> (r: String)
    ensures
        r@ == int_text(v as int),
{
    serde_json::to_string(&v).unwrap()
}

/// Appends the integers, comma separated, to `out`.
fn push_ints(out: &mut String, xs: &[i64])
    ensures
        final(out)@ == old(out)@ + ints_text(xs@),
{
    let ghost start = out@;
    let mut i: usize = 0;
    while i < xs.len()
        invariant
            i <= xs@.len(),
            out@ == start + ints_text(xs@.subrange(0, i as int)),
        decreases xs@.len() - i,
    {
        let t = int_json(xs[i]);
        if i > 0 {
            out.append(",");
        }
        out.append(t.as_str());
        proof {
            let prev = xs@.subrange(0, i as int).map_values(|x: i64| int_text(x as int));
            let next = xs@.subrange(0, i as int + 1).map_values(|x: i64| int_text(x as int));
            assert(next.drop_last() =~= prev);
            assert(next.last() == int_text(xs@[i as int] as int));
            if i == 0 {
                assert(prev.len() == 0);
                reveal_strlit(",");
            } else {
                reveal_strlit(",");
                assert(","@ =~= seq![',']);
            }
        }
        i = i + 1;
    }
    assert(xs@.subrange(0, xs@.len() as int) =~= xs@);
}

/// Encodes one record line from the already quoted metric name and label
/// pairs, the sample values and the timestamps in milliseconds.
pub fn encode_record(
    name_json: &str,
    pairs_json: &Vec<(String, String)>,
    values: &[i64],
    millis: &[i64],
) -> (r: String)
    ensures
        r@ == record_text(name_json@, pairs_view(pairs_json@), values@, millis@),
{
    let mut out = String::new();
    out.append("{\"metric\":{\"__name__\":");
    out.append(name_json);
    let ghost before = out@;
    let mut i: usize = 0;
    while i < pairs_json.len()
        invariant
            i <= pairs_json@.len(),
            out@ == before + members_text(pairs_view(pairs_json@.subrange(0, i as int))),
        decreases pairs_json@.len() - i,
    {
        out.append(",");
        out.append(pairs_json[i].0.as_str());
        out.append(":");
        out.append(pairs_json[i].1.as_str());
        proof {
            let next = pairs_view(pairs_json@.subrange(0, i as int + 1));
            assert(next.drop_last() =~= pairs_view(pairs_json@.subrange(0, i as int)));
            reveal_strlit(",");
            reveal_strlit(":");
            assert(","@ =~= seq![',']);
            assert(":"@ =~= seq![':']);
        }
        i = i + 1;
    }
    assert(pairs_json@.subrange(0, pairs_json@.len() as int) =~= pairs_json@);
    out.append("},\"values\":[");
    push_ints(&mut out, values);
    out.append("],\"timestamps\":[");
    push_ints(&mut out, millis);
    out.append("]}\r\n");
    out
}

} // verus!
