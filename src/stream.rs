//! The filtered status stream's client: which request opens it.
use vstd::prelude::*;
use vstd::string::*;
use crate::config::Config;
use crate::error::Error;
use crate::oauth::{
    is_valid_method, join, join_strings, pairs_of, query_pairs, OAuthParameters, OAuthRequestBuilder,
    Parameter, SignedRequest,
};

verus! {

/// Where the filtered stream is served.
pub const STREAM_URL: &'static str = "https://stream.twitter.com/1.1/statuses/filter.json";

/// The OAuth version every request states.
pub const OAUTH_VERSION: &'static str = "1.0";

/// A client of the filtered stream: the credentials and the filter.
pub struct FilterStreamClient {
    pub config: Config,
    pub parameters: Vec<Parameter>,
}

impl FilterStreamClient {
    /// A client tracking the given phrases (joined by `,`), with stall
    /// warnings as given.
    pub fn new(config: Config, track: &Vec<String>, stall_warning: &str) -> (r: FilterStreamClient)
        ensures
            r.config == config,
            pairs_of(r.parameters@) == seq![
                ("stall_warning"@, stall_warning@),
                ("track"@, join(track.deep_view(), ","@)),
            ],
    {
        let stall = Parameter::new("stall_warning", stall_warning);
        let joined = join_strings(track, ",");
        let track_param = Parameter::new("track", joined.as_str());
        let parameters = vec![stall, track_param];
        assert(pairs_of(parameters@) =~= seq![
            ("stall_warning"@, stall_warning@),
            ("track"@, join(track.deep_view(), ","@)),
        ]);
        FilterStreamClient { config, parameters }
    }

    /// The signed POST that opens the stream at `url`, with a fresh nonce and
    /// the current time.
    pub fn oauth_stream(&self, url: &str) -> (r: Result<SignedRequest, Error>)
        ensures
            match r {
                Ok(req) => {
                    &&& req.method@ == "POST"@
                    &&& req.uri@ == url@ + "?"@ + join(query_pairs(pairs_of(self.parameters@)), "&"@)
                    &&& req.headers@.len() == 3
                    &&& req.headers@[0].0@ == "Connection"@ && req.headers@[0].1@ == "close"@
                    &&& req.headers@[1].0@ == "Content-Type"@
                        && req.headers@[1].1@ == "application/x-www-form-urlencoded"@
                    &&& req.headers@[2].0@ == "Authorization"@
                },
                Err(_) => false,
            },
    {
        let oauth = OAuthParameters::new(
            self.config.api_key.as_str(),
            self.config.access_token.as_str(),
            OAUTH_VERSION,
        );
        let mut query: Vec<Parameter> = Vec::new();
        let mut i: usize = 0;
        while i < self.parameters.len()
            invariant
                i <= self.parameters@.len(),
                pairs_of(query@) == pairs_of(self.parameters@).subrange(0, i as int),
            decreases self.parameters@.len() - i,
        {
            let p = self.parameters[i].clone();
            let ghost before = query@;
            query.push(p);
            proof {
                before.lemma_push_map_commute(|p: Parameter| p@, p);
                assert(pairs_of(self.parameters@).subrange(0, i + 1) =~= pairs_of(self.parameters@).subrange(
                    0,
                    i as int,
                ).push(p@));
            }
            i = i + 1;
        }
        assert(pairs_of(self.parameters@).subrange(0, i as int) =~= pairs_of(self.parameters@));
        let builder = OAuthRequestBuilder::new(url, "POST", self.config.clone(), oauth, query);
        proof {
            reveal_strlit("POST");
            assert(is_valid_method("POST"@));
        }
        builder.build()
    }
}

/// The lines completed by `data` when the unfinished line so far was `cur0`,
/// and the unfinished line after it.
pub open spec fn scan_lines(cur0: Seq<u8>, data: Seq<u8>) -> (Seq<Seq<u8>>, Seq<u8>)
    decreases data.len(),
{
    if data.len() == 0 {
        (Seq::empty(), cur0)
    } else {
        let (lines, cur) = scan_lines(cur0, data.drop_last());
        if data.last() == 10u8 {
            (lines.push(cur), Seq::empty())
        } else {
            (lines, cur.push(data.last()))
        }
    }
}

/// A line without the carriage return that may end it.
pub open spec fn trim_cr(l: Seq<u8>) -> Seq<u8> {
    if l.len() > 0 && l.last() == 13u8 {
        l.drop_last()
    } else {
        l
    }
}

/// The records among completed lines: each trimmed, blank keep-alive lines dropped.
pub open spec fn records_of(lines: Seq<Seq<u8>>) -> Seq<Seq<u8>> {
    lines.map_values(|l: Seq<u8>| trim_cr(l)).filter(|l: Seq<u8>| l.len() > 0)
}

/// Splits the byte stream into newline-terminated records.
pub struct LineBuffer {
    pub pending: Vec<u8>,
}

impl LineBuffer {
    pub fn new() -> (r: LineBuffer)
        ensures
            r.pending@.len() == 0,
    {
        LineBuffer { pending: Vec::new() }
    }

    /// Takes a chunk of the stream; gives the records it completes, in order,
    /// and keeps the unfinished line for the next chunk.
    pub fn push(&mut self, chunk: &[u8]) -> (r: Vec<Vec<u8>>)
        ensures
            final(self).pending@ == scan_lines(old(self).pending@, chunk@).1,
            r.deep_view() == records_of(scan_lines(old(self).pending@, chunk@).0),
    {
        let ghost p0 = self.pending@;
        let mut out: Vec<Vec<u8>> = Vec::new();
        let mut cur: Vec<u8> = Vec::new();
        std::mem::swap(&mut cur, &mut self.pending);
        let mut i: usize = 0;
        assert(chunk@.take(0) =~= Seq::<u8>::empty());
        assert(out.deep_view() =~= records_of(Seq::<Seq<u8>>::empty()));
        while i < chunk.len()
            invariant
                i <= chunk@.len(),
                cur@ == scan_lines(p0, chunk@.take(i as int)).1,
                out.deep_view() == records_of(scan_lines(p0, chunk@.take(i as int)).0),
            decreases chunk@.len() - i,
        {
            let b = chunk[i];
            let ghost before = scan_lines(p0, chunk@.take(i as int));
            proof {
                assert(chunk@.take(i + 1).drop_last() =~= chunk@.take(i as int));
                assert(chunk@.take(i + 1).last() == b);
            }
            if b == 10 {
                let mut line: Vec<u8> = Vec::new();
                std::mem::swap(&mut line, &mut cur);
                let n = line.len();
                if n > 0 && line[n - 1] == 13 {
                    line.pop();
                }
                let ghost trimmed = line@;
                assert(trimmed == trim_cr(before.1));
                let ghost old_out = out.deep_view();
                assert(line.deep_view() =~= line@);
                if line.len() > 0 {
                    out.push(line);
                    assert(out.deep_view() =~= old_out.push(trimmed));
                } else {
                    assert(out.deep_view() =~= old_out);
                }
                proof {
                    let f = |l: Seq<u8>| trim_cr(l);
                    let keep = |l: Seq<u8>| l.len() > 0;
                    before.0.lemma_push_map_commute(f, before.1);
                    before.0.map_values(f).lemma_filter_push(trim_cr(before.1), keep);
                    assert(out.deep_view() =~= records_of(before.0.push(before.1)));
                }
            } else {
                cur.push(b);
            }
            i = i + 1;
        }
        assert(chunk@.take(i as int) =~= chunk@);
        self.pending = cur;
        out
    }
}

} // verus!
