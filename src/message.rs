use vstd::prelude::*;

verus! {

pub open spec fn is_digit(c: char) -> bool {
    '0' <= c && c <= '9'
}

pub open spec fn all_digits(s: Seq<char>) -> bool {
    forall|i: int| 0 <= i < s.len() ==> is_digit(#[trigger] s[i])
}

/// The sign of a JSON number: nothing or a minus.
pub open spec fn sign_part(s: Seq<char>) -> bool {
    s.len() == 0 || s == seq!['-']
}

/// The integer part: one or more digits, with no leading zero unless it is
/// the only digit.
pub open spec fn int_part(s: Seq<char>) -> bool {
    s.len() > 0 && all_digits(s) && (s[0] == '0' ==> s.len() == 1)
}

/// The fraction: nothing, or a point followed by one or more digits.
pub open spec fn frac_part(s: Seq<char>) -> bool {
    s.len() == 0 || (s.len() >= 2 && s[0] == '.' && all_digits(s.drop_first()))
}

/// The exponent: nothing, or `e` or `E`, an optional sign, and one or more
/// digits.
pub open spec fn exp_part(s: Seq<char>) -> bool {
    s.len() == 0 || (s.len() >= 2 && (s[0] == 'e' || s[0] == 'E') && (all_digits(s.drop_first())
        || (s.len() >= 3 && (s[1] == '+' || s[1] == '-') && all_digits(
        s.subrange(2, s.len() as int),
    ))))
}

/// `s` is a JSON number literal: a sign, an integer part, a fraction and an
/// exponent, one after the other.
pub open spec fn is_json_number(s: Seq<char>) -> bool {
    exists|a: int, b: int, c: int|
        0 <= a <= b <= c <= s.len() && sign_part(#[trigger] s.subrange(0, a)) && int_part(
            #[trigger] s.subrange(a, b),
        ) && frac_part(#[trigger] s.subrange(b, c)) && exp_part(s.subrange(c, s.len() as int))
}

/// A numeric field of a market-data message, kept exactly as the provider
/// wrote it so that forwarding it loses nothing.
#[derive(Clone, Debug)]
pub struct Number {
    text: String,
}

impl Number {
    pub closed spec fn spec_text(&self) -> Seq<char> {
        self.text@
    }

    pub open spec fn wf(&self) -> bool {
        is_json_number(self.spec_text())
    }

    /// Accepts `text` when it is a JSON number literal.
    pub fn new(text: &str) -> (r: Option<Number>)
        ensures
            r is Some <==> is_json_number(text@),
            r matches Some(n) ==> n.spec_text() == text@ && n.wf(),
    {
        if number_literal(text) {
            Some(Number { text: String::from_str(text) })
        } else {
            None
        }
    }

    /// The literal as written.
    pub fn as_str(&self) -> (r: &str)
        ensures
            r@ == self.spec_text(),
    {
        self.text.as_str()
    }
}

/// The end of the run of digits in `text` that starts at `from`.
fn scan_digits(text: &str, len: usize, from: usize) -> (r: usize)
    requires
        len == text@.len(),
        from <= len,
    ensures
        from <= r <= len,
        all_digits(text@.subrange(from as int, r as int)),
        r < len ==> !is_digit(text@[r as int]),
{
    let mut i = from;
    while i < len
        invariant
            len == text@.len(),
            from <= i <= len,
            forall|k: int| from <= k < i ==> is_digit(#[trigger] text@[k]),
        ensures
            from <= i <= len,
            forall|k: int| from <= k < i ==> is_digit(#[trigger] text@[k]),
            i < len ==> !is_digit(text@[i as int]),
        decreases len - i,
    {
        let c = text.get_char(i);
        if !('0' <= c && c <= '9') {
            break;
        }
        i = i + 1;
    }
    assert forall|k: int| 0 <= k < i - from implies is_digit(
        #[trigger] text@.subrange(from as int, i as int)[k],
    ) by {
        assert(text@.subrange(from as int, i as int)[k] == text@[from + k]);
    }
    i
}

/// Where a run of digits may end: at the end of the text, or before a
/// character that is not a digit.
proof fn lemma_digits_end(s: Seq<char>, from: int, end: int, other: int)
    requires
        0 <= from <= end <= s.len(),
        0 <= from <= other <= s.len(),
        all_digits(s.subrange(from, end)),
        end < s.len() ==> !is_digit(s[end]),
        all_digits(s.subrange(from, other)),
    ensures
        other <= end,
{
    if other > end {
        assert(s.subrange(from, other)[end - from] == s[end]);
    }
}

#[verifier::rlimit(80)]
#[verifier::spinoff_prover]
fn number_literal(text: &str) -> (r: bool)
    ensures
        r == is_json_number(text@),
{
    let ghost s = text@;
    let len = text.unicode_len();
    let a: usize = if len > 0 && text.get_char(0) == '-' { 1 } else { 0 };
    assert(a == 1 <==> (s.len() > 0 && s[0] == '-'));
    let b = scan_digits(text, len, a);
    assert(s.subrange(0, a as int) =~= (if a == 1 { seq!['-'] } else { Seq::<char>::empty() }));
    // In every split that fits the grammar, the sign and the integer part
    // end where the scan says.
    assert forall|a2: int, b2: int, c2: int|
        0 <= a2 <= b2 <= c2 <= s.len() && sign_part(#[trigger] s.subrange(0, a2)) && int_part(
            #[trigger] s.subrange(a2, b2),
        ) && frac_part(#[trigger] s.subrange(b2, c2)) && exp_part(
            s.subrange(c2, s.len() as int),
        ) implies a2 == a && b2 == b by {
        assert(s.subrange(a2, b2)[0] == s[a2]);
        assert(is_digit(s[a2]));
        if a2 == 1 {
            assert(s.subrange(0, a2)[0] == s[0]);
            assert(s[0] == '-');
        } else {
            assert(s.subrange(0, a2).len() == a2);
            assert(seq!['-'].len() == 1);
            assert(a2 == 0);
            assert(s[0] != '-');
        }
        assert(a2 == a);
        lemma_digits_end(s, a as int, b as int, b2);
        if b2 < b {
            assert(s.subrange(a as int, b as int)[b2 - a] == s[b2]);
            if c2 > b2 {
                assert(s.subrange(b2, c2)[0] == s[b2]);
            } else {
                assert(s.subrange(c2, s.len() as int)[0] == s[b2]);
            }
        }
    }
    if b == a || (text.get_char(a) == '0' && b != a + 1) {
        assert(!is_json_number(s)) by {
            if is_json_number(s) {
                let (a2, b2, c2) = choose|a2: int, b2: int, c2: int|
                    0 <= a2 <= b2 <= c2 <= s.len() && sign_part(#[trigger] s.subrange(0, a2))
                        && int_part(#[trigger] s.subrange(a2, b2)) && frac_part(
                        #[trigger] s.subrange(b2, c2),
                    ) && exp_part(s.subrange(c2, s.len() as int));
                assert(s.subrange(a2, b2)[0] == s[a as int]);
            }
        }
        return false;
    }
    assert(int_part(s.subrange(a as int, b as int))) by {
        assert(s.subrange(a as int, b as int)[0] == s[a as int]);
    }
    // The fraction.
    let mut c = b;
    if c < len && text.get_char(c) == '.' {
        let d = scan_digits(text, len, c + 1);
        if d == c + 1 {
            assert(!is_json_number(s)) by {
                if is_json_number(s) {
                    let (a2, b2, c2) = choose|a2: int, b2: int, c2: int|
                        0 <= a2 <= b2 <= c2 <= s.len() && sign_part(#[trigger] s.subrange(0, a2))
                            && int_part(#[trigger] s.subrange(a2, b2)) && frac_part(
                            #[trigger] s.subrange(b2, c2),
                        ) && exp_part(s.subrange(c2, s.len() as int));
                    if c2 > b2 {
                        assert(s.subrange(b2, c2).drop_first()[0] == s[b + 1]);
                    } else {
                        assert(s.subrange(c2, s.len() as int)[0] == s[b as int]);
                    }
                }
            }
            return false;
        }
        assert(frac_part(s.subrange(b as int, d as int))) by {
            assert(s.subrange(b as int, d as int).drop_first() =~= s.subrange(b + 1, d as int));
        }
        c = d;
    }
    assert(frac_part(s.subrange(b as int, c as int)));
    // Every split that fits the grammar ends its fraction at `c`.
    assert forall|a2: int, b2: int, c2: int|
        0 <= a2 <= b2 <= c2 <= s.len() && sign_part(#[trigger] s.subrange(0, a2)) && int_part(
            #[trigger] s.subrange(a2, b2),
        ) && frac_part(#[trigger] s.subrange(b2, c2)) && exp_part(
            s.subrange(c2, s.len() as int),
        ) implies c2 == c by {
        assert(b2 == b);
        if c2 > b2 {
            assert(s.subrange(b2, c2)[0] == s[b as int]);
            assert(s.subrange(b2, c2).drop_first() =~= s.subrange(b + 1, c2));
            lemma_digits_end(s, b + 1, c as int, c2);
            if c2 < c {
                assert(s.subrange(b + 1, c as int)[c2 - b - 1] == s[c2]);
                assert(s.subrange(c2, s.len() as int)[0] == s[c2]);
            }
        } else if c > b {
            assert(s.subrange(c2, s.len() as int)[0] == s[b as int]);
        }
    }
    // The exponent.
    let mut e = c;
    if c < len && (text.get_char(c) == 'e' || text.get_char(c) == 'E') {
        let mut k = c + 1;
        if k < len && (text.get_char(k) == '+' || text.get_char(k) == '-') {
            k = k + 1;
        }
        let d = scan_digits(text, len, k);
        if d == k {
            assert(!is_json_number(s)) by {
                if is_json_number(s) {
                    let (a2, b2, c2) = choose|a2: int, b2: int, c2: int|
                        0 <= a2 <= b2 <= c2 <= s.len() && sign_part(#[trigger] s.subrange(0, a2))
                            && int_part(#[trigger] s.subrange(a2, b2)) && frac_part(
                            #[trigger] s.subrange(b2, c2),
                        ) && exp_part(s.subrange(c2, s.len() as int));
                    let x = s.subrange(c as int, s.len() as int);
                    assert(c2 == c);
                    assert(x[0] == s[c as int]);
                    if x.len() >= 2 {
                        assert(x.drop_first()[0] == s[c + 1]);
                        assert(x[1] == s[c + 1]);
                    }
                    if x.len() >= 3 {
                        assert(x.subrange(2, x.len() as int)[0] == s[c + 2]);
                    }
                }
            }
            return false;
        }
        e = d;
        proof {
            let x = s.subrange(c as int, s.len() as int);
            if e == len {
                assert(x[0] == s[c as int]);
                if k == c + 1 {
                    assert(x.drop_first() =~= s.subrange(c + 1, e as int));
                } else {
                    assert(x[1] == s[c + 1]);
                    assert(x.subrange(2, x.len() as int) =~= s.subrange(c + 2, e as int));
                }
            }
        }
    }
    assert(e == len ==> exp_part(s.subrange(c as int, s.len() as int))) by {
        if e == len && e == c {
            assert(s.subrange(c as int, s.len() as int).len() == 0);
        }
    }
    if e == len {
        true
    } else {
        assert(!is_json_number(s)) by {
            if is_json_number(s) {
                let (a2, b2, c2) = choose|a2: int, b2: int, c2: int|
                    0 <= a2 <= b2 <= c2 <= s.len() && sign_part(#[trigger] s.subrange(0, a2))
                        && int_part(#[trigger] s.subrange(a2, b2)) && frac_part(
                        #[trigger] s.subrange(b2, c2),
                    ) && exp_part(s.subrange(c2, s.len() as int));
                let x = s.subrange(c as int, s.len() as int);
                assert(c2 == c);
                if e == c {
                    assert(x[0] == s[c as int]);
                } else if x.len() >= 3 && (x[1] == '+' || x[1] == '-') && all_digits(
                    x.subrange(2, x.len() as int),
                ) {
                    assert(x.subrange(2, x.len() as int)[e - c - 2] == s[e as int]);
                } else {
                    assert(x.drop_first()[e - c - 1] == s[e as int]);
                }
            }
        }
        false
    }
}

/// Status codes that the provider sends on its control plane.
#[derive(Clone, Copy, Debug, PartialEq, Eq)]
pub enum StatusCode {
    Connected,
    AuthSuccess,
    AuthFailed,
    AuthTimeout,
    Success,
    MaxConnections,
    ForceDisconnect,
}

impl StatusCode {
    /// A fatal status ends the session: the provider will not serve it again.
    pub open spec fn spec_is_fatal(self) -> bool {
        self is MaxConnections || self is ForceDisconnect
    }

    pub fn is_fatal(&self) -> (r: bool)
        ensures
            r == self.spec_is_fatal(),
    {
        match self {
            StatusCode::MaxConnections | StatusCode::ForceDisconnect => true,
            _ => false,
        }
    }
}

/// One trade print.
#[derive(Clone, Debug)]
pub struct Trade {
    pub symbol: String,
    pub price: Number,
    pub size: Number,
    pub timestamp: Number,
}

/// One top-of-book quote.
#[derive(Clone, Debug)]
pub struct Quote {
    pub symbol: String,
    pub bid_price: Number,
    pub bid_size: Number,
    pub ask_price: Number,
    pub ask_size: Number,
    pub timestamp: Number,
}

/// Open, high, low, close and volume over a window from `start` to `end`.
#[derive(Clone, Debug)]
pub struct Aggregate {
    pub symbol: String,
    pub volume: Number,
    pub open: Number,
    pub high: Number,
    pub low: Number,
    pub close: Number,
    pub start: Number,
    pub end: Number,
}

/// One event of the upstream stream.
#[derive(Clone, Debug)]
pub enum Message {
    Trade(Trade),
    Quote(Quote),
    SecondAggregate(Aggregate),
    MinuteAggregate(Aggregate),
    Status { status: StatusCode, message: String },
}

impl Message {
    /// The symbol of a data message; status messages have none.
    pub open spec fn spec_symbol(&self) -> Seq<char> {
        match self {
            Message::Trade(t) => t.symbol@,
            Message::Quote(q) => q.symbol@,
            Message::SecondAggregate(a) => a.symbol@,
            Message::MinuteAggregate(a) => a.symbol@,
            Message::Status { .. } => Seq::empty(),
        }
    }

    /// Every data message names a symbol, and every number in it is a JSON
    /// number literal.
    pub open spec fn wf(&self) -> bool {
        match self {
            Message::Trade(t) => t.symbol@.len() > 0 && t.price.wf() && t.size.wf()
                && t.timestamp.wf(),
            Message::Quote(q) => q.symbol@.len() > 0 && q.bid_price.wf() && q.bid_size.wf()
                && q.ask_price.wf() && q.ask_size.wf() && q.timestamp.wf(),
            Message::SecondAggregate(a) => a.symbol@.len() > 0 && aggregate_wf(a),
            Message::MinuteAggregate(a) => a.symbol@.len() > 0 && aggregate_wf(a),
            Message::Status { .. } => true,
        }
    }

    /// The session-ending status messages.
    pub open spec fn spec_is_fatal(&self) -> bool {
        match self {
            Message::Status { status, .. } => status.spec_is_fatal(),
            _ => false,
        }
    }

    pub fn is_fatal(&self) -> (r: bool)
        ensures
            r == self.spec_is_fatal(),
    {
        match self {
            Message::Status { status, .. } => status.is_fatal(),
            _ => false,
        }
    }
}

pub open spec fn aggregate_wf(a: &Aggregate) -> bool {
    a.volume.wf() && a.open.wf() && a.high.wf() && a.low.wf() && a.close.wf() && a.start.wf()
        && a.end.wf()
}

} // verus!
