use vstd::prelude::*;
use crate::command::{token, token_of};
use crate::settings::{lemma_split_commas_len, split_commas, vec_from_str};

verus! {

pub open spec fn strings_view(v: Seq<String>) -> Seq<Seq<char>> {
    v.map_values(|s: String| s@)
}

/// The tokens `<class>.<ticker>` of one event class, one per ticker.
pub open spec fn class_tokens(class: Seq<char>, tickers: Seq<Seq<char>>) -> Seq<Seq<char>> {
    tickers.map_values(|t: Seq<char>| token_of(class, t))
}

/// Every (event class, ticker) pair as a token, class by class.
pub open spec fn subscription_tokens(classes: Seq<Seq<char>>, tickers: Seq<Seq<char>>) -> Seq<
    Seq<char>,
>
    decreases classes.len(),
{
    if classes.len() == 0 {
        Seq::empty()
    } else {
        subscription_tokens(classes.drop_last(), tickers) + class_tokens(classes.last(), tickers)
    }
}

/// The parts joined with commas between them.
pub open spec fn join_commas(parts: Seq<Seq<char>>) -> Seq<char>
    decreases parts.len(),
{
    if parts.len() == 0 {
        Seq::empty()
    } else if parts.len() == 1 {
        parts[0]
    } else {
        join_commas(parts.drop_last()) + ","@ + parts.last()
    }
}

/// The parameter of one subscribe action that covers every pair.
pub open spec fn subscription_params(classes: Seq<Seq<char>>, tickers: Seq<Seq<char>>) -> Seq<
    char,
> {
    join_commas(subscription_tokens(classes, tickers))
}

/// The set `ts` with token `t` added at the end, unless it is empty or
/// already there.
pub open spec fn with_token(ts: Seq<Seq<char>>, t: Seq<char>) -> Seq<Seq<char>> {
    if t.len() == 0 || ts.contains(t) {
        ts
    } else {
        ts.push(t)
    }
}

/// The set `ts` with each token of `new` added in turn.
pub open spec fn with_tokens(ts: Seq<Seq<char>>, new: Seq<Seq<char>>) -> Seq<Seq<char>>
    decreases new.len(),
{
    if new.len() == 0 {
        ts
    } else {
        with_token(with_tokens(ts, new.drop_last()), new.last())
    }
}

/// The set `ts` without token `t`, the others in their order.
pub open spec fn without_token(ts: Seq<Seq<char>>, t: Seq<char>) -> Seq<Seq<char>>
    decreases ts.len(),
{
    if ts.len() == 0 {
        ts
    } else {
        let r = without_token(ts.drop_last(), t);
        if ts.last() == t {
            r
        } else {
            r.push(ts.last())
        }
    }
}

/// The set `ts` without any token of `gone`.
pub open spec fn without_tokens(ts: Seq<Seq<char>>, gone: Seq<Seq<char>>) -> Seq<Seq<char>>
    decreases gone.len(),
{
    if gone.len() == 0 {
        ts
    } else {
        without_token(without_tokens(ts, gone.drop_last()), gone.last())
    }
}

/// The subscription set after an action was written upstream: a subscribe
/// adds the comma-separated tokens of its parameter, an unsubscribe removes
/// them, and any other action leaves the set as it is.
pub open spec fn after_action(ts: Seq<Seq<char>>, action: Seq<char>, params: Seq<char>) -> Seq<
    Seq<char>,
> {
    if action == "subscribe"@ {
        with_tokens(ts, split_commas(params))
    } else if action == "unsubscribe"@ {
        without_tokens(ts, split_commas(params))
    } else {
        ts
    }
}

/// The tokens of every (event class, ticker) pair, class by class.
pub fn tokens_of(classes: &Vec<String>, tickers: &Vec<String>) -> (r: Vec<String>)
    ensures
        strings_view(r@) == subscription_tokens(strings_view(classes@), strings_view(tickers@)),
{
    let ghost cs = strings_view(classes@);
    let ghost ts = strings_view(tickers@);
    let mut out: Vec<String> = Vec::new();
    let mut i: usize = 0;
    assert(cs.take(0) =~= Seq::<Seq<char>>::empty());
    assert(strings_view(out@) =~= Seq::<Seq<char>>::empty());
    while i < classes.len()
        invariant
            i <= classes.len(),
            cs == strings_view(classes@),
            ts == strings_view(tickers@),
            strings_view(out@) == subscription_tokens(cs.take(i as int), ts),
        decreases classes.len() - i,
    {
        let ghost base = strings_view(out@);
        let mut j: usize = 0;
        assert(ts.take(0) =~= Seq::<Seq<char>>::empty());
        assert(base + class_tokens(cs[i as int], ts.take(0)) =~= base);
        while j < tickers.len()
            invariant
                i < classes.len(),
                j <= tickers.len(),
                cs == strings_view(classes@),
                ts == strings_view(tickers@),
                base == subscription_tokens(cs.take(i as int), ts),
                strings_view(out@) == base + class_tokens(cs[i as int], ts.take(j as int)),
            decreases tickers.len() - j,
        {
            let t = token(classes[i].as_str(), tickers[j].as_str());
            let ghost before = out@;
            out.push(t);
            proof {
                assert(strings_view(out@) =~= strings_view(before).push(
                    token_of(cs[i as int], ts[j as int]),
                ));
                assert(class_tokens(cs[i as int], ts.take(j + 1)) =~= class_tokens(
                    cs[i as int],
                    ts.take(j as int),
                ).push(token_of(cs[i as int], ts[j as int])));
                assert(strings_view(out@) =~= base + class_tokens(cs[i as int], ts.take(j + 1)));
            }
            j = j + 1;
        }
        proof {
            assert(ts.take(tickers.len() as int) =~= ts);
            assert(cs.take(i + 1).drop_last() =~= cs.take(i as int));
            assert(cs.take(i + 1).last() == cs[i as int]);
        }
        i = i + 1;
    }
    assert(cs.take(classes.len() as int) =~= cs);
    out
}

/// The parts joined with commas between them.
pub fn join(parts: &Vec<String>) -> (r: String)
    ensures
        r@ == join_commas(strings_view(parts@)),
{
    let ghost ps = strings_view(parts@);
    let mut out = String::new();
    let mut i: usize = 0;
    assert(ps.take(0) =~= Seq::<Seq<char>>::empty());
    while i < parts.len()
        invariant
            i <= parts.len(),
            ps == strings_view(parts@),
            out@ == join_commas(ps.take(i as int)),
        decreases parts.len() - i,
    {
        if i > 0 {
            out.append(",");
        }
        out.append(parts[i].as_str());
        proof {
            assert(ps.take(i + 1).drop_last() =~= ps.take(i as int));
            assert(ps.take(i + 1).last() == ps[i as int]);
            if i == 0 {
                assert(out@ =~= ps.take(1)[0]);
            }
        }
        i = i + 1;
    }
    assert(ps.take(parts.len() as int) =~= ps);
    out
}

/// The comma-joined tokens `<class>.<ticker>` of every event class and ticker.
pub fn subscription_list(classes: &Vec<String>, tickers: &Vec<String>) -> (r: String)
    ensures
        r@ == subscription_params(strings_view(classes@), strings_view(tickers@)),
{
    join(&tokens_of(classes, tickers))
}

fn holds(v: &Vec<String>, t: &String) -> (r: bool)
    ensures
        r == strings_view(v@).contains(t@),
{
    let mut i: usize = 0;
    while i < v.len()
        invariant
            i <= v.len(),
            forall|k: int| 0 <= k < i ==> (#[trigger] strings_view(v@)[k]) != t@,
        decreases v.len() - i,
    {
        if v[i] == *t {
            assert(strings_view(v@)[i as int] == t@);
            return true;
        }
        i = i + 1;
    }
    false
}

/// Adds each token of `new` to the set `v`.
pub fn add_tokens(v: &mut Vec<String>, new: &Vec<String>)
    ensures
        strings_view(final(v)@) == with_tokens(strings_view(old(v)@), strings_view(new@)),
{
    let ghost start = strings_view(v@);
    let ghost ns = strings_view(new@);
    let mut i: usize = 0;
    assert(ns.take(0) =~= Seq::<Seq<char>>::empty());
    while i < new.len()
        invariant
            i <= new.len(),
            ns == strings_view(new@),
            strings_view(v@) == with_tokens(start, ns.take(i as int)),
        decreases new.len() - i,
    {
        let ghost before = strings_view(v@);
        let t = new[i].clone();
        if !t.as_str().is_empty() && !holds(v, &t) {
            let ghost prev = v@;
            v.push(t);
            assert(strings_view(v@) =~= strings_view(prev).push(ns[i as int]));
        }
        proof {
            assert(ns.take(i + 1).drop_last() =~= ns.take(i as int));
            assert(ns.take(i + 1).last() == ns[i as int]);
        }
        i = i + 1;
    }
    assert(ns.take(new.len() as int) =~= ns);
}

fn remove_token(v: &Vec<String>, t: &String) -> (r: Vec<String>)
    ensures
        strings_view(r@) == without_token(strings_view(v@), t@),
{
    let ghost vs = strings_view(v@);
    let mut out: Vec<String> = Vec::new();
    let mut i: usize = 0;
    assert(vs.take(0) =~= Seq::<Seq<char>>::empty());
    assert(strings_view(out@) =~= Seq::<Seq<char>>::empty());
    while i < v.len()
        invariant
            i <= v.len(),
            vs == strings_view(v@),
            strings_view(out@) == without_token(vs.take(i as int), t@),
        decreases v.len() - i,
    {
        proof {
            assert(vs.take(i + 1).drop_last() =~= vs.take(i as int));
            assert(vs.take(i + 1).last() == vs[i as int]);
        }
        if v[i] != *t {
            let ghost prev = out@;
            out.push(v[i].clone());
            assert(strings_view(out@) =~= strings_view(prev).push(vs[i as int]));
        }
        i = i + 1;
    }
    assert(vs.take(v.len() as int) =~= vs);
    out
}

/// The set `v` without any token of `gone`.
pub fn remove_tokens(v: Vec<String>, gone: &Vec<String>) -> (r: Vec<String>)
    ensures
        strings_view(r@) == without_tokens(strings_view(v@), strings_view(gone@)),
{
    let ghost start = strings_view(v@);
    let ghost gs = strings_view(gone@);
    let mut cur = v;
    let mut i: usize = 0;
    assert(gs.take(0) =~= Seq::<Seq<char>>::empty());
    while i < gone.len()
        invariant
            i <= gone.len(),
            gs == strings_view(gone@),
            strings_view(cur@) == without_tokens(start, gs.take(i as int)),
        decreases gone.len() - i,
    {
        cur = remove_token(&cur, &gone[i]);
        proof {
            assert(gs.take(i + 1).drop_last() =~= gs.take(i as int));
            assert(gs.take(i + 1).last() == gs[i as int]);
        }
        i = i + 1;
    }
    assert(gs.take(gone.len() as int) =~= gs);
    cur
}

/// The subscription set `v` after `action` with `params` was written upstream.
pub fn track(v: Vec<String>, action: &str, params: &str) -> (r: Vec<String>)
    ensures
        strings_view(r@) == after_action(strings_view(v@), action@, params@),
{
    let a = String::from_str(action);
    let parts = vec_from_str(params);
    if a == String::from_str("subscribe") {
        let mut cur = v;
        add_tokens(&mut cur, &parts);
        cur
    } else if a == String::from_str("unsubscribe") {
        remove_tokens(v, &parts)
    } else {
        v
    }
}

/// Splitting text followed by a comma-free tail extends the last piece.
proof fn lemma_split_tail(s: Seq<char>, t: Seq<char>)
    requires
        !t.contains(','),
    ensures
        split_commas(s + t) == split_commas(s).update(
            split_commas(s).len() - 1,
            split_commas(s).last() + t,
        ),
    decreases t.len(),
{
    lemma_split_commas_len(s);
    let r = split_commas(s);
    if t.len() == 0 {
        assert(s + t =~= s);
        assert(r.last() + t =~= r.last());
        assert(r.update(r.len() - 1, r.last()) =~= r);
    } else {
        let u = t.drop_last();
        assert(!u.contains(',')) by {
            if u.contains(',') {
                let k = choose|k: int| 0 <= k < u.len() && u[k] == ',';
                assert(t[k] == ',');
            }
        }
        lemma_split_tail(s, u);
        assert((s + t).drop_last() =~= s + u);
        assert((s + t).last() == t.last());
        assert(t[t.len() - 1] != ',');
        assert((r.last() + u).push(t.last()) =~= r.last() + t);
        assert(r.update(r.len() - 1, r.last() + u).update(r.len() - 1, r.last() + t) =~= r.update(
            r.len() - 1,
            r.last() + t,
        ));
    }
}

/// Splitting comma-joined comma-free parts gives the parts back.
pub proof fn lemma_split_join(parts: Seq<Seq<char>>)
    requires
        parts.len() >= 1,
        forall|i: int| 0 <= i < parts.len() ==> !(#[trigger] parts[i]).contains(','),
    ensures
        split_commas(join_commas(parts)) == parts,
    decreases parts.len(),
{
    reveal_strlit(",");
    if parts.len() == 1 {
        lemma_split_tail(Seq::empty(), parts[0]);
        assert(Seq::<char>::empty() + parts[0] =~= parts[0]);
        assert(seq![Seq::<char>::empty()].update(0, Seq::<char>::empty() + parts[0]) =~= parts);
    } else {
        let init = parts.drop_last();
        lemma_split_join(init);
        let j = join_commas(init);
        assert(j + ","@ + parts.last() =~= j.push(',') + parts.last());
        assert(!parts.last().contains(',')) by {
            assert(parts.last() == parts[parts.len() - 1]);
        }
        lemma_split_tail(j.push(','), parts.last());
        assert(j.push(',').drop_last() =~= j);
        assert(split_commas(j.push(',')) == init.push(Seq::<char>::empty()));
        assert(Seq::<char>::empty() + parts.last() =~= parts.last());
        assert(init.push(Seq::<char>::empty()).update(init.len() as int, parts.last()) =~= parts);
    }
}

/// A token made of comma-free parts is comma-free and not empty.
proof fn lemma_token_shape(c: Seq<char>, t: Seq<char>)
    requires
        !c.contains(','),
        !t.contains(','),
    ensures
        !token_of(c, t).contains(','),
        token_of(c, t).len() > 0,
{
    reveal_strlit(".");
    let x = token_of(c, t);
    assert(x =~= c + seq!['.'] + t);
    if x.contains(',') {
        let k = choose|k: int| 0 <= k < x.len() && x[k] == ',';
        if k < c.len() {
            assert(c[k] == ',');
        } else if k > c.len() {
            assert(t[k - c.len() - 1] == ',');
        }
    }
}

/// Adding tokens keeps what was there and brings in each non-empty new one.
proof fn lemma_with_tokens_members(ts: Seq<Seq<char>>, new: Seq<Seq<char>>)
    ensures
        forall|x: Seq<char>|
            #[trigger] with_tokens(ts, new).contains(x) <==> ts.contains(x) || (new.contains(x)
                && x.len() > 0),
    decreases new.len(),
{
    if new.len() > 0 {
        let init = new.drop_last();
        lemma_with_tokens_members(ts, init);
        let w = with_tokens(ts, init);
        assert forall|x: Seq<char>|
            #[trigger] with_tokens(ts, new).contains(x) <==> ts.contains(x) || (new.contains(x)
                && x.len() > 0) by {
            if new.contains(x) && !init.contains(x) {
                let k = choose|k: int| 0 <= k < new.len() && new[k] == x;
                if k < new.len() - 1 {
                    assert(init[k] == x);
                }
                assert(x == new.last());
            }
            if init.contains(x) {
                let k = choose|k: int| 0 <= k < init.len() && init[k] == x;
                assert(new[k] == x);
            }
            if x == new.last() {
                assert(new[new.len() - 1] == x);
            }
            if !(x.len() == 0 || w.contains(x)) && x == new.last() {
                assert(w.push(x)[w.len() as int] == x);
            }
            if w.push(new.last()).contains(x) && x != new.last() {
                let k = choose|k: int| 0 <= k < w.len() + 1 && w.push(new.last())[k] == x;
                assert(w[k] == x);
            }
            if w.contains(x) {
                let k = choose|k: int| 0 <= k < w.len() && w[k] == x;
                assert(w.push(new.last())[k] == x);
            }
        }
    }
}

/// The tokens of the pairs are those of the form `<class>.<ticker>`.
proof fn lemma_subscription_tokens_members(cs: Seq<Seq<char>>, ts: Seq<Seq<char>>)
    ensures
        forall|x: Seq<char>|
            #[trigger] subscription_tokens(cs, ts).contains(x) <==> exists|i: int, j: int|
                0 <= i < cs.len() && 0 <= j < ts.len() && x == token_of(cs[i], ts[j]),
    decreases cs.len(),
{
    if cs.len() > 0 {
        let init = cs.drop_last();
        lemma_subscription_tokens_members(init, ts);
        let a = subscription_tokens(init, ts);
        let b = class_tokens(cs.last(), ts);
        assert(subscription_tokens(cs, ts) == a + b);
        assert forall|x: Seq<char>|
            #[trigger] subscription_tokens(cs, ts).contains(x) <==> exists|i: int, j: int|
                0 <= i < cs.len() && 0 <= j < ts.len() && x == token_of(cs[i], ts[j]) by {
            if (a + b).contains(x) {
                let k = choose|k: int| 0 <= k < (a + b).len() && (a + b)[k] == x;
                if k < a.len() {
                    assert(a[k] == x);
                    assert(a.contains(x));
                    let (i, j) = choose|i: int, j: int|
                        0 <= i < init.len() && 0 <= j < ts.len() && x == token_of(init[i], ts[j]);
                    assert(cs[i] == init[i]);
                } else {
                    assert(b[k - a.len()] == x);
                    assert(x == token_of(cs[cs.len() - 1], ts[k - a.len()]));
                }
            }
            if exists|i: int, j: int|
                0 <= i < cs.len() && 0 <= j < ts.len() && x == token_of(cs[i], ts[j]) {
                let (i, j) = choose|i: int, j: int|
                    0 <= i < cs.len() && 0 <= j < ts.len() && x == token_of(cs[i], ts[j]);
                if i < cs.len() - 1 {
                    assert(init[i] == cs[i]);
                    assert(a.contains(x));
                    let k = choose|k: int| 0 <= k < a.len() && a[k] == x;
                    assert((a + b)[k] == x);
                } else {
                    assert(b[j] == x);
                    assert((a + b)[a.len() + j] == x);
                }
            }
        }
    }
}

/// Reconnect resubscription, as a set: when no class or ticker holds a
/// comma and both lists are non-empty, splitting the parameter of the
/// subscribe action at commas gives exactly the tokens `<class>.<ticker>`
/// of every configured pair, each once. A session starts with this token
/// list and no event changes it, so every reconnect sends the same set.
pub proof fn lemma_resubscribe_pairs(classes: Seq<Seq<char>>, tickers: Seq<Seq<char>>)
    requires
        classes.len() > 0,
        tickers.len() > 0,
        forall|i: int| 0 <= i < classes.len() ==> !(#[trigger] classes[i]).contains(','),
        forall|j: int| 0 <= j < tickers.len() ==> !(#[trigger] tickers[j]).contains(','),
    ensures
        ({
            let sent = split_commas(
                join_commas(with_tokens(Seq::empty(), subscription_tokens(classes, tickers))),
            );
            &&& forall|x: Seq<char>|
                #[trigger] sent.contains(x) <==> exists|i: int, j: int|
                    0 <= i < classes.len() && 0 <= j < tickers.len() && x == token_of(
                        classes[i],
                        tickers[j],
                    )
            &&& sent.no_duplicates()
        }),
{
    let toks = subscription_tokens(classes, tickers);
    let w = with_tokens(Seq::empty(), toks);
    lemma_subscription_tokens_members(classes, tickers);
    lemma_with_tokens_members(Seq::empty(), toks);
    lemma_with_tokens_unique(Seq::empty(), toks);
    assert forall|k: int| 0 <= k < w.len() implies !(#[trigger] w[k]).contains(',') && w[k].len()
        > 0 by {
        assert(w.contains(w[k]));
        assert(toks.contains(w[k]));
        let (i, j) = choose|i: int, j: int|
            0 <= i < classes.len() && 0 <= j < tickers.len() && w[k] == token_of(
                classes[i],
                tickers[j],
            );
        lemma_token_shape(classes[i], tickers[j]);
    }
    let first = token_of(classes[0], tickers[0]);
    lemma_token_shape(classes[0], tickers[0]);
    assert(toks.contains(first));
    assert(w.contains(first));
    lemma_split_join(w);
    assert forall|x: Seq<char>|
        #[trigger] w.contains(x) <==> exists|i: int, j: int|
            0 <= i < classes.len() && 0 <= j < tickers.len() && x == token_of(
                classes[i],
                tickers[j],
            ) by {
        assert(w.contains(x) <==> toks.contains(x) && x.len() > 0);
        if exists|i: int, j: int|
            0 <= i < classes.len() && 0 <= j < tickers.len() && x == token_of(
                classes[i],
                tickers[j],
            ) {
            let (i, j) = choose|i: int, j: int|
                0 <= i < classes.len() && 0 <= j < tickers.len() && x == token_of(
                    classes[i],
                    tickers[j],
                );
            lemma_token_shape(classes[i], tickers[j]);
            assert(toks.contains(x));
        }
    }
}

/// Adding tokens never repeats one.
proof fn lemma_with_tokens_unique(ts: Seq<Seq<char>>, new: Seq<Seq<char>>)
    requires
        ts.no_duplicates(),
    ensures
        with_tokens(ts, new).no_duplicates(),
    decreases new.len(),
{
    if new.len() > 0 {
        lemma_with_tokens_unique(ts, new.drop_last());
        let w = with_tokens(ts, new.drop_last());
        let x = new.last();
        if !(x.len() == 0 || w.contains(x)) {
            assert forall|a: int, b: int|
                0 <= a < w.len() + 1 && 0 <= b < w.len() + 1 && a != b implies w.push(x)[a]
                != w.push(x)[b] by {
                if a == w.len() {
                    assert(w[b] != x);
                } else if b == w.len() {
                    assert(w[a] != x);
                }
            }
        }
    }
}

} // verus!
