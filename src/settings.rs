use vstd::prelude::*;
use crate::session::Session;
use crate::subscriptions::{strings_view, subscription_tokens, with_tokens};

verus! {

/// Where the control HTTP surface listens.
#[derive(Clone, Debug)]
pub struct WebServerSettings {
    pub address: String,
    pub port: usize,
}

/// The upstream provider: where to connect, the key to authenticate with,
/// the tickers, and which event classes to subscribe to.
#[derive(Clone, Debug)]
pub struct PolygonSettings {
    pub base_url: String,
    pub key_id: String,
    pub tickers: Vec<String>,
    pub trades: bool,
    pub quotes: bool,
    pub minute_aggregates: bool,
    pub second_aggregates: bool,
}

/// Where crash reports go.
#[derive(Clone, Debug)]
pub struct SentrySettings {
    pub address: String,
}

/// The pieces of `s` between commas, as `str::split(',')` gives them: one
/// more piece than there are commas.
pub open spec fn split_commas(s: Seq<char>) -> Seq<Seq<char>>
    decreases s.len(),
{
    if s.len() == 0 {
        seq![Seq::empty()]
    } else {
        let r = split_commas(s.drop_last());
        if s.last() == ',' {
            r.push(Seq::empty())
        } else {
            r.update(r.len() - 1, r.last().push(s.last()))
        }
    }
}

pub proof fn lemma_split_commas_len(s: Seq<char>)
    ensures
        split_commas(s).len() >= 1,
    decreases s.len(),
{
    if s.len() > 0 {
        lemma_split_commas_len(s.drop_last());
    }
}

/// Reads a comma-separated list, such as the tickers in the environment.
pub fn vec_from_str(s: &str) -> (r: Vec<String>)
    ensures
        strings_view(r@) == split_commas(s@),
{
    let len = s.unicode_len();
    let mut parts: Vec<String> = Vec::new();
    let mut start: usize = 0;
    let mut i: usize = 0;
    assert(s@.take(0) =~= Seq::<char>::empty());
    assert(strings_view(parts@).push(s@.subrange(0, 0)) =~= seq![Seq::<char>::empty()]);
    while i < len
        invariant
            len == s@.len(),
            start <= i <= len,
            strings_view(parts@).push(s@.subrange(start as int, i as int)) == split_commas(
                s@.take(i as int),
            ),
        decreases len - i,
    {
        let c = s.get_char(i);
        let ghost before = parts@;
        let ghost from = start;
        proof {
            lemma_split_commas_len(s@.take(i as int));
            assert(s@.take(i + 1).drop_last() =~= s@.take(i as int));
            assert(s@.take(i + 1).last() == c);
        }
        if c == ',' {
            let piece = String::from_str(s.substring_char(start, i));
            parts.push(piece);
            start = i + 1;
            proof {
                assert(strings_view(parts@) =~= strings_view(before).push(
                    s@.subrange(from as int, i as int),
                ));
                assert(s@.subrange(start as int, i + 1) =~= Seq::<char>::empty());
            }
        } else {
            proof {
                let r = split_commas(s@.take(i as int));
                assert(s@.subrange(start as int, i + 1) =~= s@.subrange(
                    start as int,
                    i as int,
                ).push(c));
                assert(strings_view(parts@).push(s@.subrange(start as int, i + 1)) =~= r.update(
                    r.len() - 1,
                    r.last().push(c),
                ));
            }
        }
        i = i + 1;
    }
    let last = String::from_str(s.substring_char(start, len));
    let ghost before = parts@;
    parts.push(last);
    proof {
        assert(s@.take(len as int) =~= s@);
        assert(strings_view(parts@) =~= strings_view(before).push(
            s@.subrange(start as int, len as int),
        ));
    }
    parts
}

/// The event classes chosen by the flags, in the order quotes, trades,
/// second aggregates, minute aggregates.
pub open spec fn classes_of(quotes: bool, trades: bool, seconds: bool, minutes: bool) -> Seq<
    Seq<char>,
> {
    let a: Seq<Seq<char>> = if quotes { seq!["Q"@] } else { Seq::empty() };
    let b: Seq<Seq<char>> = if trades { a.push("T"@) } else { a };
    let c: Seq<Seq<char>> = if seconds { b.push("A"@) } else { b };
    if minutes { c.push("AM"@) } else { c }
}

impl PolygonSettings {
    /// The event classes to subscribe to.
    pub fn event_classes(&self) -> (r: Vec<String>)
        ensures
            strings_view(r@) == classes_of(
                self.quotes,
                self.trades,
                self.second_aggregates,
                self.minute_aggregates,
            ),
    {
        let mut r: Vec<String> = Vec::new();
        if self.quotes {
            r.push(String::from_str("Q"));
        }
        if self.trades {
            r.push(String::from_str("T"));
        }
        if self.second_aggregates {
            r.push(String::from_str("A"));
        }
        if self.minute_aggregates {
            r.push(String::from_str("AM"));
        }
        assert(strings_view(r@) =~= classes_of(
            self.quotes,
            self.trades,
            self.second_aggregates,
            self.minute_aggregates,
        ));
        r
    }

    /// The upstream session these settings describe.
    pub fn session(&self, max_attempts: u32) -> (r: Session)
        ensures
            r.wf(),
            r.spec_url() == self.base_url@,
            r.spec_token() == self.key_id@,
            r.spec_tokens() == with_tokens(
                Seq::empty(),
                subscription_tokens(
                    classes_of(
                        self.quotes,
                        self.trades,
                        self.second_aggregates,
                        self.minute_aggregates,
                    ),
                    strings_view(self.tickers@),
                ),
            ),
            r.spec_max_attempts() == max_attempts,
            r.spec_phase() is Disconnected,
            r.spec_attempts() == 0,
    {
        let classes = self.event_classes();
        let tickers = self.tickers.clone();
        Session::new(self.base_url.clone(), self.key_id.clone(), classes, tickers, max_attempts)
    }
}

} // verus!
