use crate::json::{encode_record, json_quoted, pairs_view, quote, record_text};
use crate::labels::{is_listing, lemma_listing_unique, sorted_pairs};
use crate::timestamp::Timestamp;
use std::collections::BTreeMap;
use vstd::prelude::*;
use vstd::string::*;

verus! {

broadcast use vstd::seq_lib::group_seq_properties;

/// Relies on reqwest::Error only as a value carried through.
#[verifier::external_type_specification]
#[verifier::external_body]
pub struct ExRequestError(reqwest::Error);

/// Why a flush failed.
#[derive(Debug)]
pub enum SendError {
    /// The request could not be completed.
    RequestError(reqwest::Error),
    /// The server answered with a status outside the success class.
    InvalidResponseStatusCode(u16),
}

/// Why a record was refused.
#[derive(Clone, Copy, Debug, PartialEq, Eq, Structural)]
pub enum AddError {
    /// The sample values and the timestamps differ in number.
    LengthMismatch,
}

/// The milliseconds of each timestamp.
pub open spec fn millis_seq(ts: Seq<Timestamp>) -> Seq<i64> {
    ts.map_values(|t: Timestamp| t.millis() as i64)
}

/// Each key and value quoted as a JSON string.
pub open spec fn quote_pairs(s: Seq<(Seq<char>, Seq<char>)>) -> Seq<(Seq<char>, Seq<char>)> {
    s.map_values(|p: (Seq<char>, Seq<char>)| (json_quoted(p.0), json_quoted(p.1)))
}

/// The line that one call of `add` appends for these arguments, given the
/// listing `s` of the labels.
pub open spec fn line_for(
    name: Seq<char>,
    s: Seq<(Seq<char>, Seq<char>)>,
    values: Seq<i64>,
    timestamps: Seq<Timestamp>,
) -> Seq<char> {
    record_text(json_quoted(name), quote_pairs(s), values, millis_seq(timestamps))
}

/// The import address for a host.
pub open spec fn import_url(host: Seq<char>) -> Seq<char> {
    "http://"@ + host + "/api/v1/import"@
}

pub open spec fn ends_with_crlf(line: Seq<char>) -> bool {
    line.len() >= 2 && line[line.len() - 2] == '\r' && line[line.len() - 1] == '\n'
}

/// Accumulates record lines for one import endpoint until they are taken
/// out to be sent.
pub struct MetricsWriter {
    url: String,
    buffer: Option<String>,
    lines: Ghost<Seq<Seq<char>>>,
}

impl MetricsWriter {
    pub closed spec fn url_view(&self) -> Seq<char> {
        self.url@
    }

    /// The lines added since construction or since the last take, in order.
    pub closed spec fn records(&self) -> Seq<Seq<char>> {
        self.lines@
    }

    pub closed spec fn buffered(&self) -> Option<Seq<char>> {
        match &self.buffer {
            Some(b) => Some(b@),
            None => None,
        }
    }

    /// The buffer is absent when no line was added, and otherwise holds the
    /// lines one after another, each ending in CRLF.
    pub open spec fn wf(&self) -> bool {
        &&& self.records().len() == 0 ==> self.buffered() is None
        &&& self.records().len() > 0 ==> self.buffered() == Some(self.records().flatten())
        &&& forall|i: int| 0 <= i < self.records().len() ==> ends_with_crlf(#[trigger] self.records()[i])
    }

    /// A writer for `http://{host}/api/v1/import` with an empty buffer.
    pub fn new(host: &str) -> (r: MetricsWriter)
        ensures
            r.wf(),
            r.url_view() == import_url(host@),
            r.records() == Seq::<Seq<char>>::empty(),
    {
        let mut url = String::new();
        url.append("http://");
        url.append(host);
        url.append("/api/v1/import");
        MetricsWriter { url, buffer: None, lines: Ghost(Seq::empty()) }
    }

    pub fn url(&self) -> (r: &str)
        ensures
            r@ == self.url_view(),
    {
        self.url.as_str()
    }

    /// Appends one record line: the metric's name and labels, its values and
    /// the timestamps in milliseconds, then CRLF. Refused, with nothing
    /// appended, when values and timestamps differ in number.
    pub fn add(
        &mut self,
        name: &str,
        labels: &BTreeMap<String, String>,
        values: &[i64],
        timestamps: &[Timestamp],
    ) -> (r: Result<(), AddError>)
        requires
            old(self).wf(),
            forall|i: int| 0 <= i < timestamps@.len() ==> (#[trigger] timestamps@[i]).wf(),
        ensures
            final(self).wf(),
            final(self).url_view() == old(self).url_view(),
            values@.len() != timestamps@.len() ==> r == Err::<(), AddError>(AddError::LengthMismatch)
                && final(self).records() == old(self).records(),
            values@.len() == timestamps@.len() ==> r is Ok && exists|s: Seq<(Seq<char>, Seq<char>)>|
                is_listing(s, labels.deep_view()) && final(self).records() == old(
                self,
            ).records().push(line_for(name@, s, values@, timestamps@)),
    {
        if values.len() != timestamps.len() {
            return Err(AddError::LengthMismatch);
        }
        let pairs = sorted_pairs(labels);
        let ghost s = pairs_view(pairs@);
        let mut quoted: Vec<(String, String)> = Vec::new();
        let mut i: usize = 0;
        while i < pairs.len()
            invariant
                i <= pairs@.len(),
                s == pairs_view(pairs@),
                pairs_view(quoted@) == quote_pairs(s.subrange(0, i as int)),
            decreases pairs@.len() - i,
        {
            let k = quote(pairs[i].0.as_str());
            let v = quote(pairs[i].1.as_str());
            let ghost prev = quoted@;
            quoted.push((k, v));
            proof {
                assert(s[i as int] == (pairs@[i as int].0@, pairs@[i as int].1@));
                assert(quoted@ == prev.push((k, v)));
                assert(pairs_view(prev.push((k, v))) =~= pairs_view(prev).push((k@, v@)));
                assert(quote_pairs(s.subrange(0, i as int + 1)) =~= quote_pairs(
                    s.subrange(0, i as int),
                ).push((json_quoted(s[i as int].0), json_quoted(s[i as int].1))));
            }
            i = i + 1;
        }
        assert(s.subrange(0, s.len() as int) =~= s);
        let mut millis: Vec<i64> = Vec::new();
        let mut j: usize = 0;
        while j < timestamps.len()
            invariant
                j <= timestamps@.len(),
                forall|i: int| 0 <= i < timestamps@.len() ==> (#[trigger] timestamps@[i]).wf(),
                millis@ == millis_seq(timestamps@.subrange(0, j as int)),
            decreases timestamps@.len() - j,
        {
            let ms = timestamps[j].timestamp_millis();
            millis.push(ms);
            assert(millis@ =~= millis_seq(timestamps@.subrange(0, j as int + 1)));
            j = j + 1;
        }
        assert(timestamps@.subrange(0, timestamps@.len() as int) =~= timestamps@);
        let name_json = quote(name);
        let line = encode_record(name_json.as_str(), &quoted, values, millis.as_slice());
        proof {
            reveal_strlit("]}\r\n");
            let l = line@;
            assert(l =~= line_for(name@, s, values@, timestamps@));
            assert(ends_with_crlf(l));
        }
        let ghost before = self.lines@;
        match self.buffer.take() {
            Some(mut b) => {
                b.append(line.as_str());
                self.buffer = Some(b);
            },
            None => {
                self.buffer = Some(line);
            },
        }
        self.lines = Ghost(before.push(line@));
        proof {
            before.lemma_flatten_push(line@);
            if before.len() == 0 {
                assert(before.push(line@) =~= seq![line@]);
                seq![line@].lemma_flatten_one_element();
                assert(before.flatten() =~= Seq::<char>::empty());
            }
            assert(is_listing(s, labels.deep_view()));
        }
        Ok(())
    }

    /// Takes the buffered lines out, leaving the buffer empty: `None` when
    /// nothing was added, so that nothing is sent.
    pub fn take_payload(&mut self) -> (r: Option<String>)
        requires
            old(self).wf(),
        ensures
            final(self).wf(),
            final(self).url_view() == old(self).url_view(),
            final(self).records() == Seq::<Seq<char>>::empty(),
            r is None <==> old(self).records().len() == 0,
            r matches Some(p) ==> p@ == old(self).records().flatten(),
    {
        self.lines = Ghost(Seq::empty());
        self.buffer.take()
    }
}

/// The result of a flush from what the transport reported: success for a
/// status in 200..300, the status itself for any other, and the transport's
/// error when the request failed.
pub fn response_outcome(response: Result<u16, reqwest::Error>) -> (r: Result<(), SendError>)
    ensures
        match response {
            Ok(code) => if 200 <= code < 300 {
                r is Ok
            } else {
                r matches Err(SendError::InvalidResponseStatusCode(c)) && c == code
            },
            Err(e) => r matches Err(SendError::RequestError(f)) && f == e,
        },
{
    match response {
        Ok(code) => {
            if 200 <= code && code < 300 {
                Ok(())
            } else {
                Err(SendError::InvalidResponseStatusCode(code))
            }
        },
        Err(e) => Err(SendError::RequestError(e)),
    }
}

/// After any run of `add` calls the buffer holds exactly the lines they
/// appended, one after another in call order, each terminated by CRLF, and
/// holds nothing at all before the first.
pub proof fn lemma_buffer_is_lines(w: MetricsWriter)
    requires
        w.wf(),
    ensures
        w.records().len() == 0 ==> w.buffered() is None,
        w.records().len() > 0 ==> w.buffered() == Some(w.records().flatten()),
        forall|i: int| 0 <= i < w.records().len() ==> ends_with_crlf(#[trigger] w.records()[i]),
{
}

/// Two `add` calls with the same arguments append byte-identical lines:
/// the line depends on the label mapping, not on how it was listed.
pub proof fn lemma_same_arguments_same_line(
    name: Seq<char>,
    labels: Map<Seq<char>, Seq<char>>,
    values: Seq<i64>,
    timestamps: Seq<Timestamp>,
    s1: Seq<(Seq<char>, Seq<char>)>,
    s2: Seq<(Seq<char>, Seq<char>)>,
)
    requires
        is_listing(s1, labels),
        is_listing(s2, labels),
    ensures
        line_for(name, s1, values, timestamps) == line_for(name, s2, values, timestamps),
{
    lemma_listing_unique(labels, s1, s2);
}

} // verus!
