//! Command-line parsing for smoke screenshot runs and small text adapters.

use vstd::prelude::*;
use vstd::string::*;

use crate::text::{
    ascii_lower, chars_eq, chars_of, has_prefix, is_white, lower, lower_chars, split_chars, split_on, string_of,
    strip_prefix_chars, trim, trim_chars, trim_end, trim_start, trimmed_chars,
};

verus! {

/// Canonical smoke capture ids, in capture order.
pub open spec fn view_order() -> Seq<Seq<char>> {
    seq!["preview"@, "compose"@, "discover"@, "library"@, "profiles"@, "automation"@]
}

/// Captures taken when no views are requested: fixture preview and the Compose shell.
pub open spec fn default_views() -> Seq<Seq<char>> {
    seq!["preview"@, "compose"@]
}

/// Characters that separate requested view ids.
pub open spec fn view_separators() -> Seq<char> {
    seq![',', ' ', ';']
}

/// Outcome of reading the requested view tokens left to right.
pub enum ViewScan {
    /// The first token that is neither a known id nor `all`.
    Unknown(Seq<char>),
    /// Every token was a known id or `all`; these were requested, trimmed and lower-cased.
    Known(Seq<Seq<char>>),
}

/// A requested token is a capture id or `all`.
pub open spec fn known_token(t: Seq<char>) -> bool {
    t == "all"@ || view_order().contains(t)
}

/// Reads tokens left to right, trimmed and lower-cased: blanks are skipped, and the first
/// token that is neither a known id nor `all` stops the scan.
pub open spec fn scan_views(tokens: Seq<Seq<char>>) -> ViewScan
    decreases tokens.len(),
{
    if tokens.len() == 0 {
        ViewScan::Known(Seq::empty())
    } else {
        let t = lower(trim(tokens[0]));
        let rest = tokens.subrange(1, tokens.len() as int);
        if t.len() == 0 {
            scan_views(rest)
        } else if !known_token(t) {
            ViewScan::Unknown(t)
        } else {
            match scan_views(rest) {
                ViewScan::Known(sel) => ViewScan::Known(seq![t] + sel),
                other => other,
            }
        }
    }
}

/// The tokens a `--smoke-views` value requests.
pub open spec fn requested_views(spec: Seq<char>) -> ViewScan {
    let t = trim(spec);
    if t.len() == 0 {
        ViewScan::Known(Seq::empty())
    } else {
        scan_views(split_on(t, view_separators()))
    }
}

/// The ids of `order`, in order, that `selected` mentions.
pub open spec fn order_selected(order: Seq<Seq<char>>, selected: Seq<Seq<char>>) -> Seq<Seq<char>>
    decreases order.len(),
{
    if order.len() == 0 {
        order
    } else {
        let rest = order_selected(order.drop_last(), selected);
        if selected.contains(order.last()) {
            rest.push(order.last())
        } else {
            rest
        }
    }
}

/// The error text for an unknown view token.
pub open spec fn unknown_view_message(token: Seq<char>) -> Seq<char> {
    "unknown smoke view '"@ + token
        + "' (expected one of: preview, compose, discover, library, profiles, automation, or all)"@
}

/// The captures for a list of requested tokens: every view when `all` is among them, the
/// defaults when none are, else the requested views in capture order.
pub open spec fn views_for(selected: Seq<Seq<char>>) -> Seq<Seq<char>> {
    if selected.contains("all"@) {
        view_order()
    } else if selected.len() == 0 {
        default_views()
    } else {
        order_selected(view_order(), selected)
    }
}

/// What `parse_smoke_views` returns for a `--smoke-views` value: an unknown token is an
/// error wherever it stands.
pub open spec fn smoke_views(spec: Seq<char>) -> Result<Seq<Seq<char>>, Seq<char>> {
    match requested_views(spec) {
        ViewScan::Unknown(token) => Err(unknown_view_message(token)),
        ViewScan::Known(sel) => Ok(views_for(sel)),
    }
}

/// `v` keeps some of the items of `order`, in their order: it is `order` with items left out.
pub open spec fn is_subsequence(v: Seq<Seq<char>>, order: Seq<Seq<char>>) -> bool
    decreases order.len(),
{
    if order.len() == 0 {
        v.len() == 0
    } else if v.len() > 0 && v.last() == order.last() {
        is_subsequence(v.drop_last(), order.drop_last())
    } else {
        is_subsequence(v, order.drop_last())
    }
}

proof fn lemma_order_selected_subsequence(order: Seq<Seq<char>>, selected: Seq<Seq<char>>)
    ensures
        is_subsequence(order_selected(order, selected), order),
    decreases order.len(),
{
    if order.len() > 0 {
        lemma_order_selected_subsequence(order.drop_last(), selected);
        let rest = order_selected(order.drop_last(), selected);
        if selected.contains(order.last()) {
            assert(rest.push(order.last()).drop_last() =~= rest);
        } else {
            lemma_subsequence_skip(rest, order);
        }
    }
}

proof fn lemma_subsequence_skip(v: Seq<Seq<char>>, order: Seq<Seq<char>>)
    requires
        order.len() > 0,
        is_subsequence(v, order.drop_last()),
    ensures
        is_subsequence(v, order),
    decreases order.len(), 0int,
{
    if v.len() > 0 && v.last() == order.last() {
        lemma_subsequence_drop_last(v, order.drop_last());
    }
}

proof fn lemma_subsequence_drop_last(v: Seq<Seq<char>>, order: Seq<Seq<char>>)
    requires
        v.len() > 0,
        is_subsequence(v, order),
    ensures
        is_subsequence(v.drop_last(), order),
    decreases order.len(), 1int,
{
    if order.len() > 0 {
        if v.last() == order.last() {
            lemma_subsequence_skip(v.drop_last(), order);
        } else {
            lemma_subsequence_drop_last(v, order.drop_last());
            lemma_subsequence_skip(v.drop_last(), order);
        }
    }
}

proof fn lemma_subsequence_members(v: Seq<Seq<char>>, order: Seq<Seq<char>>)
    requires
        is_subsequence(v, order),
        order.no_duplicates(),
    ensures
        v.no_duplicates(),
        forall|x: Seq<char>| v.contains(x) ==> order.contains(x),
    decreases order.len(),
{
    if order.len() > 0 {
        let shorter = order.drop_last();
        assert(shorter.no_duplicates());
        if v.len() > 0 && v.last() == order.last() {
            lemma_subsequence_members(v.drop_last(), shorter);
            assert forall|x: Seq<char>| v.contains(x) implies order.contains(x) by {
                let k = choose|k: int| 0 <= k < v.len() && v[k] == x;
                if k < v.len() - 1 {
                    assert(v.drop_last()[k] == x);
                    assert(v.drop_last().contains(x));
                    assert(shorter.contains(x));
                    let q = choose|q: int| 0 <= q < shorter.len() && shorter[q] == x;
                    assert(order[q] == x);
                } else {
                    assert(order[order.len() - 1] == x);
                }
            }
            assert forall|i: int, j: int| 0 <= i < v.len() && 0 <= j < v.len() && i != j implies v[i] != v[j] by {
                if i < v.len() - 1 && j < v.len() - 1 {
                    assert(v.drop_last()[i] == v[i] && v.drop_last()[j] == v[j]);
                } else {
                    let k = if i < v.len() - 1 { i } else { j };
                    assert(v.drop_last()[k] == v[k]);
                    assert(v.drop_last().contains(v[k]));
                    let q = choose|q: int| 0 <= q < shorter.len() && shorter[q] == v[k];
                    assert(order[q] == v[k]);
                    assert(order[order.len() - 1] == v.last());
                }
            }
        } else {
            lemma_subsequence_members(v, shorter);
            assert forall|x: Seq<char>| v.contains(x) implies order.contains(x) by {
                let q = choose|q: int| 0 <= q < shorter.len() && shorter[q] == x;
                assert(order[q] == x);
            }
        }
    }
}

proof fn lemma_view_order_distinct()
    ensures
        view_order().no_duplicates(),
{
    reveal_strlit("preview");
    reveal_strlit("compose");
    reveal_strlit("discover");
    reveal_strlit("library");
    reveal_strlit("profiles");
    reveal_strlit("automation");
    let o = view_order();
    assert forall|i: int, j: int| 0 <= i < o.len() && 0 <= j < o.len() && i != j implies o[i] != o[j] by {
        if o[i] == o[j] {
            assert(o[i].len() == o[j].len());
            assert(o[i][0] == o[j][0]);
            assert(o[i][1] == o[j][1]);
        }
    }
}

/// Parsed smoke views are ordered, unique capture ids: whatever the requested text, a
/// successful parse lists known views without repeats, in capture order.
pub proof fn lemma_smoke_views_ordered_unique(spec: Seq<char>)
    ensures
        smoke_views(spec) matches Ok(v) ==> is_subsequence(v, view_order()) && v.no_duplicates() && forall|x: Seq<char>|
            v.contains(x) ==> view_order().contains(x),
{
    lemma_view_order_distinct();
    if smoke_views(spec) is Ok {
        let v = smoke_views(spec)->Ok_0;
        if v == default_views() {
            reveal_with_fuel(is_subsequence, 7);
            assert(default_views().drop_last() =~= seq!["preview"@]);
            assert(view_order().drop_last().drop_last().drop_last().drop_last() =~= seq!["preview"@, "compose"@]);
        } else if v == view_order() {
            lemma_order_selected_subsequence(view_order(), view_order());
            assert(is_subsequence(v, view_order())) by {
                lemma_subsequence_self(view_order());
            }
        } else {
            let sel = requested_views(spec)->Known_0;
            lemma_order_selected_subsequence(view_order(), sel);
        }
        lemma_subsequence_members(v, view_order());
    }
}

proof fn lemma_order_selected_same_members(order: Seq<Seq<char>>, a: Seq<Seq<char>>, b: Seq<Seq<char>>)
    requires
        forall|t: Seq<char>| a.contains(t) <==> b.contains(t),
    ensures
        order_selected(order, a) == order_selected(order, b),
    decreases order.len(),
{
    if order.len() > 0 {
        lemma_order_selected_same_members(order.drop_last(), a, b);
    }
}

/// The captures depend only on which tokens are requested, not on their order, repetition
/// or letter case: tokens are compared trimmed and lower-cased, and two requests whose
/// tokens are all valid and name the same tokens give the same views.
pub proof fn lemma_smoke_views_token_set(a: Seq<char>, b: Seq<char>)
    requires
        requested_views(a) matches ViewScan::Known(x) && requested_views(b) matches ViewScan::Known(y) && forall|
            t: Seq<char>,
        | x.contains(t) <==> y.contains(t),
    ensures
        smoke_views(a) == smoke_views(b),
{
    let x = requested_views(a)->Known_0;
    let y = requested_views(b)->Known_0;
    if x.len() > 0 {
        assert(x.contains(x[0]));
    }
    if y.len() > 0 {
        assert(y.contains(y[0]));
    }
    lemma_order_selected_same_members(view_order(), x, y);
}

proof fn lemma_lower_char(c: char)
    ensures
        ascii_lower(ascii_lower(c)) == ascii_lower(c),
        is_white(ascii_lower(c)) == is_white(c),
        view_separators().contains(ascii_lower(c)) == view_separators().contains(c),
{
    if 'A' <= c && c <= 'Z' {
        assert(('a' as u32) <= (ascii_lower(c) as u32) <= ('z' as u32));
    }
    let seps = view_separators();
    assert(seps[0] == ',' && seps[1] == ' ' && seps[2] == ';');
    if seps.contains(ascii_lower(c)) {
        let k = choose|k: int| 0 <= k < seps.len() && seps[k] == ascii_lower(c);
        assert(seps[k] == c);
    }
    if seps.contains(c) {
        let k = choose|k: int| 0 <= k < seps.len() && seps[k] == c;
        assert(seps[k] == ascii_lower(c));
    }
}

proof fn lemma_lower_idempotent(s: Seq<char>)
    ensures
        lower(lower(s)) == s.map_values(|c: char| ascii_lower(c)),
{
    assert forall|i: int| 0 <= i < s.len() implies lower(lower(s))[i] == ascii_lower(s[i]) by {
        lemma_lower_char(s[i]);
    }
    assert(lower(lower(s)) =~= s.map_values(|c: char| ascii_lower(c)));
}

proof fn lemma_trim_start_lower(s: Seq<char>)
    ensures
        trim_start(lower(s)) == lower(trim_start(s)),
    decreases s.len(),
{
    if s.len() > 0 {
        lemma_lower_char(s[0]);
        assert(lower(s)[0] == ascii_lower(s[0]));
        if is_white(s[0]) {
            assert(lower(s).subrange(1, lower(s).len() as int) =~= lower(s.subrange(1, s.len() as int)));
            lemma_trim_start_lower(s.subrange(1, s.len() as int));
        }
    }
}

proof fn lemma_trim_end_lower(s: Seq<char>)
    ensures
        trim_end(lower(s)) == lower(trim_end(s)),
    decreases s.len(),
{
    if s.len() > 0 {
        lemma_lower_char(s[s.len() - 1]);
        assert(lower(s)[s.len() - 1] == ascii_lower(s[s.len() - 1]));
        if is_white(s[s.len() - 1]) {
            assert(lower(s).subrange(0, lower(s).len() - 1) =~= lower(s.subrange(0, s.len() - 1)));
            lemma_trim_end_lower(s.subrange(0, s.len() - 1));
        }
    }
}

proof fn lemma_trim_lower(s: Seq<char>)
    ensures
        trim(lower(s)) == lower(trim(s)),
{
    lemma_trim_start_lower(s);
    lemma_trim_end_lower(trim_start(s));
}

proof fn lemma_split_lower(t: Seq<char>)
    ensures
        split_on(lower(t), view_separators()) == split_on(t, view_separators()).map_values(|p: Seq<char>| lower(p)),
    decreases t.len(),
{
    let seps = view_separators();
    if t.len() == 0 {
        assert(lower(t) =~= Seq::<char>::empty());
        assert(lower(Seq::<char>::empty()) =~= Seq::<char>::empty());
        assert(split_on(t, seps).map_values(|p: Seq<char>| lower(p)) =~= seq![Seq::<char>::empty()]);
    } else {
        let lt = lower(t);
        assert(lt.drop_last() =~= lower(t.drop_last()));
        assert(lt.last() == ascii_lower(t.last()));
        lemma_lower_char(t.last());
        lemma_split_lower(t.drop_last());
        crate::text::lemma_split_nonempty(t.drop_last(), seps);
        let init = split_on(t.drop_last(), seps);
        let linit = init.map_values(|p: Seq<char>| lower(p));
        if seps.contains(t.last()) {
            assert(lower(Seq::<char>::empty()) =~= Seq::<char>::empty());
            assert(init.push(Seq::<char>::empty()).map_values(|p: Seq<char>| lower(p)) =~= linit.push(
                Seq::<char>::empty(),
            ));
        } else {
            assert(lower(init.last().push(t.last())) =~= lower(init.last()).push(ascii_lower(t.last())));
            assert(init.update(init.len() - 1, init.last().push(t.last())).map_values(|p: Seq<char>| lower(p))
                =~= linit.update(linit.len() - 1, linit.last().push(ascii_lower(t.last()))));
        }
    }
}

proof fn lemma_scan_lower(tokens: Seq<Seq<char>>)
    ensures
        scan_views(tokens.map_values(|p: Seq<char>| lower(p))) == scan_views(tokens),
    decreases tokens.len(),
{
    if tokens.len() > 0 {
        let lt = tokens.map_values(|p: Seq<char>| lower(p));
        lemma_trim_lower(tokens[0]);
        lemma_lower_idempotent(trim(tokens[0]));
        assert(lower(trim(tokens[0])).map_values(|c: char| ascii_lower(c)) =~= lower(trim(tokens[0])));
        assert(lt[0] == lower(tokens[0]));
        assert(lower(trim(lt[0])) == lower(trim(tokens[0])));
        assert(lt.subrange(1, lt.len() as int) =~= tokens.subrange(1, tokens.len() as int).map_values(
            |p: Seq<char>| lower(p),
        ));
        lemma_scan_lower(tokens.subrange(1, tokens.len() as int));
    }
}

/// Letter case does not matter: a `--smoke-views` value and its lower-cased form give the same
/// result, views or error alike.
pub proof fn lemma_smoke_views_case_insensitive(spec: Seq<char>)
    ensures
        smoke_views(lower(spec)) == smoke_views(spec),
{
    lemma_trim_lower(spec);
    let t = trim(spec);
    assert(lower(t).len() == t.len());
    if t.len() > 0 {
        lemma_split_lower(t);
        lemma_scan_lower(split_on(t, view_separators()));
    }
}

proof fn lemma_subsequence_self(order: Seq<Seq<char>>)
    ensures
        is_subsequence(order, order),
    decreases order.len(),
{
    if order.len() > 0 {
        lemma_subsequence_self(order.drop_last());
    }
}

/// Views of a list of strings.
pub open spec fn texts(v: Seq<String>) -> Seq<Seq<char>> {
    v.map_values(|s: String| s@)
}

fn order_chars() -> (r: Vec<Vec<char>>)
    ensures
        r@.len() == 6,
        forall|k: int| 0 <= k < 6 ==> (#[trigger] r@[k])@ == view_order()[k],
{
    let mut r: Vec<Vec<char>> = Vec::new();
    r.push(chars_of("preview"));
    r.push(chars_of("compose"));
    r.push(chars_of("discover"));
    r.push(chars_of("library"));
    r.push(chars_of("profiles"));
    r.push(chars_of("automation"));
    r
}

/// Canonical smoke capture ids, in capture order.
pub fn smoke_view_order() -> (r: Vec<String>)
    ensures
        texts(r@) == view_order(),
{
    let mut r: Vec<String> = Vec::new();
    r.push(String::from_str("preview"));
    r.push(String::from_str("compose"));
    r.push(String::from_str("discover"));
    r.push(String::from_str("library"));
    r.push(String::from_str("profiles"));
    r.push(String::from_str("automation"));
    assert(texts(r@) =~= view_order());
    r
}

/// Captures taken when `--smoke-views` is omitted.
pub fn default_smoke_views() -> (r: Vec<String>)
    ensures
        texts(r@) == default_views(),
{
    let mut r: Vec<String> = Vec::new();
    r.push(String::from_str("preview"));
    r.push(String::from_str("compose"));
    assert(texts(r@) =~= default_views());
    r
}

fn seq_contains_chars(list: &Vec<Vec<char>>, item: &Vec<char>) -> (r: bool)
    ensures
        r == exists|k: int| 0 <= k < list@.len() && (#[trigger] list@[k])@ == item@,
{
    let mut i: usize = 0;
    while i < list.len()
        invariant
            i <= list@.len(),
            forall|k: int| 0 <= k < i ==> (#[trigger] list@[k])@ != item@,
        decreases list@.len() - i,
    {
        if chars_eq(list[i].as_slice(), item.as_slice()) {
            return true;
        }
        i = i + 1;
    }
    false
}

/// Membership of a token in the known view ids.
fn known_view(order: &Vec<Vec<char>>, token: &Vec<char>) -> (r: bool)
    requires
        order@.len() == 6,
        forall|k: int| 0 <= k < 6 ==> (#[trigger] order@[k])@ == view_order()[k],
    ensures
        r == view_order().contains(token@),
{
    let r = seq_contains_chars(order, token);
    proof {
        if r {
            let k = choose|k: int| 0 <= k < order@.len() && (#[trigger] order@[k])@ == token@;
            assert(view_order()[k] == token@);
        }
        if view_order().contains(token@) {
            let k = choose|k: int| 0 <= k < view_order().len() && view_order()[k] == token@;
            assert(order@[k]@ == token@);
        }
    }
    r
}

/// Parses a comma/space/semicolon-separated `--smoke-views` value into ordered unique ids.
///
/// Accepts `all` for every capture. Unknown tokens return an error.
#[verifier::loop_isolation(false)]
pub fn parse_smoke_views(spec: &str) -> (r: Result<Vec<String>, String>)
    ensures
        smoke_views(spec@) == match r {
            Ok(v) => Ok(texts(v@)),
            Err(e) => Err::<Seq<Seq<char>>, Seq<char>>(e@),
        },
{
    let trimmed = trimmed_chars(spec);
    if trimmed.len() == 0 {
        return Ok(default_smoke_views());
    }
    let mut seps: Vec<char> = Vec::new();
    seps.push(',');
    seps.push(' ');
    seps.push(';');
    assert(seps@ =~= view_separators());
    let pieces = split_chars(trimmed.as_slice(), seps.as_slice());
    let ghost toks = split_on(trimmed@, view_separators());
    let order = order_chars();
    let all = chars_of("all");
    let mut selected: Vec<Vec<char>> = Vec::new();
    let n = pieces.len();
    let mut i: usize = 0;
    assert(toks.subrange(0, n as int) =~= toks);
    while i < n
        invariant
            n == pieces@.len(),
            n == toks.len(),
            i <= n,
            forall|k: int| 0 <= k < n ==> (#[trigger] pieces@[k])@ == toks[k],
            match scan_views(toks.subrange(i as int, n as int)) {
                ViewScan::Known(rest) => scan_views(toks) matches ViewScan::Known(full) && (forall|v: Seq<char>| full.contains(v) <==> (rest.contains(v) || exists|k: int| 0 <= k < selected@.len() && (#[trigger] selected@[k])@ == v)),
                other => scan_views(toks) == other,
            },
            all@ == "all"@,
        decreases n - i,
    {
        let ghost rest_toks = toks.subrange(i as int, n as int);
        assert(rest_toks.subrange(1, rest_toks.len() as int) =~= toks.subrange(i + 1, n as int));
        assert(rest_toks[0] == toks[i as int]);
        let token = lower_chars(&trim_chars(&pieces[i]));
        if token.len() == 0 {
            i = i + 1;
            continue;
        }
        if !chars_eq(token.as_slice(), all.as_slice()) && !known_view(&order, &token) {
            let mut message = String::from_str("unknown smoke view '");
            message.append(string_of(token.as_slice()).as_str());
            message.append("' (expected one of: preview, compose, discover, library, profiles, automation, or all)");
            return Err(message);
        }
        let ghost sel_before = selected@;
        if !seq_contains_chars(&selected, &token) {
            selected.push(token);
        }
        proof {
            match scan_views(toks.subrange(i + 1, n as int)) {
                ViewScan::Known(rest) => {
                    assert forall|v: Seq<char>| ((seq![token@] + rest).contains(v) || exists|k: int| 0 <= k < sel_before.len() && (#[trigger] sel_before[k])@ == v) <==> (rest.contains(v) || exists|k: int| 0 <= k < selected@.len() && (#[trigger] selected@[k])@ == v) by {
                        if exists|k: int| 0 <= k < sel_before.len() && (#[trigger] sel_before[k])@ == v {
                            let k = choose|k: int| 0 <= k < sel_before.len() && (#[trigger] sel_before[k])@ == v;
                            assert(selected@[k]@ == v);
                        }
                        if (seq![token@] + rest).contains(v) {
                            let k = choose|k: int| 0 <= k < rest.len() + 1 && (seq![token@] + rest)[k] == v;
                            if k > 0 {
                                assert(rest[k - 1] == v);
                            } else {
                                if !exists|q: int| 0 <= q < sel_before.len() && (#[trigger] sel_before[q])@ == token@ {
                                    assert(selected@[sel_before.len() as int]@ == v);
                                } else {
                                    let q = choose|q: int| 0 <= q < sel_before.len() && (#[trigger] sel_before[q])@ == token@;
                                    assert(selected@[q]@ == v);
                                }
                            }
                        }
                        if rest.contains(v) {
                            let k = choose|k: int| 0 <= k < rest.len() && rest[k] == v;
                            assert((seq![token@] + rest)[k + 1] == v);
                        }
                        if exists|k: int| 0 <= k < selected@.len() && (#[trigger] selected@[k])@ == v {
                            let k = choose|k: int| 0 <= k < selected@.len() && (#[trigger] selected@[k])@ == v;
                            if k < sel_before.len() {
                                assert(sel_before[k]@ == v);
                            } else {
                                assert((seq![token@] + rest)[0] == v);
                            }
                        }
                    }
                },
                _ => {},
            }
        }
        i = i + 1;
    }
    assert(toks.subrange(n as int, n as int) =~= Seq::<Seq<char>>::empty());
    if selected.len() == 0 {
        proof {
            if let ViewScan::Known(full) = scan_views(toks) {
                if full.len() > 0 {
                    assert(full.contains(full[0]));
                }
            }
        }
        return Ok(default_smoke_views());
    }
    let ghost full = scan_views(toks)->Known_0;
    if seq_contains_chars(&selected, &all) {
        assert(full.contains("all"@));
        return Ok(smoke_view_order());
    }
    assert(!full.contains("all"@));
    let mut out: Vec<String> = Vec::new();
    let mut j: usize = 0;
    proof {
        assert(selected@[0]@ == selected@[0]@);
    }
    assert(full.contains(selected@[0]@));
    while j < 6
        invariant
            j <= 6,
            order@.len() == 6,
            forall|k: int| 0 <= k < 6 ==> (#[trigger] order@[k])@ == view_order()[k],
            texts(out@) == order_selected(view_order().subrange(0, j as int), full),
            forall|v: Seq<char>| full.contains(v) <==> exists|k: int| 0 <= k < selected@.len() && (#[trigger] selected@[k])@ == v,
        decreases 6 - j,
    {
        let ghost prefix = view_order().subrange(0, j + 1);
        assert(prefix.drop_last() =~= view_order().subrange(0, j as int));
        assert(prefix.last() == order@[j as int]@);
        if seq_contains_chars(&selected, &order[j]) {
            out.push(string_of(order[j].as_slice()));
            assert(texts(out@) =~= texts(out@.drop_last()).push(order@[j as int]@));
        }
        j = j + 1;
    }
    assert(view_order().subrange(0, 6) =~= view_order());
    Ok(out)
}

/// Smoke screenshot output paths configured before the desktop event loop starts.
#[derive(Clone, Debug, PartialEq, Eq)]
pub struct SmokePaths {
    /// Directory that receives `gui-*.png`.
    pub out_dir: String,
    /// Local still image loaded into Compose for the screenshot.
    pub image_path: String,
    /// Ordered capture ids (`preview`, page names, or both).
    pub views: Vec<String>,
}

/// Smoke screenshot configuration read from the command line.
#[derive(Clone, Debug, PartialEq, Eq)]
pub struct SmokeConfig {
    /// Directory that receives the screenshots.
    pub out_dir: String,
    /// Ordered capture ids.
    pub views: Vec<String>,
}

/// Reads `--smoke-screenshot[=DIR]` and `--smoke-views[=LIST]` from `args[i..]`, carrying the
/// directory and view list seen so far.
pub open spec fn scan_smoke_args(
    args: Seq<Seq<char>>,
    i: int,
    out_dir: Option<Seq<char>>,
    views: Option<Seq<char>>,
) -> Result<(Option<Seq<char>>, Option<Seq<char>>), Seq<char>>
    decreases args.len() - i,
{
    if i < 0 || i >= args.len() {
        Ok((out_dir, views))
    } else {
        let a = args[i];
        if a == "--smoke-screenshot"@ {
            if i + 1 < args.len() {
                scan_smoke_args(args, i + 2, Some(args[i + 1]), views)
            } else {
                scan_smoke_args(args, i + 1, None, views)
            }
        } else if has_prefix(a, "--smoke-screenshot="@) {
            scan_smoke_args(args, i + 1, Some(a.subrange(19, a.len() as int)), views)
        } else if a == "--smoke-views"@ {
            if i + 1 >= args.len() {
                Err("invalid --smoke-views: missing value"@)
            } else if args[i + 1].len() > 0 && args[i + 1][0] == '-' {
                Err("invalid --smoke-views: missing value before '"@ + args[i + 1] + "'"@)
            } else {
                scan_smoke_args(args, i + 2, out_dir, Some(args[i + 1]))
            }
        } else if has_prefix(a, "--smoke-views="@) {
            if a.len() == 14 {
                Err("invalid --smoke-views: missing value"@)
            } else {
                scan_smoke_args(args, i + 1, out_dir, Some(a.subrange(14, a.len() as int)))
            }
        } else {
            scan_smoke_args(args, i + 1, out_dir, views)
        }
    }
}

/// What `parse_smoke_args` returns: no configuration without a screenshot directory, else
/// the directory and the parsed views (none requested means the defaults).
pub open spec fn smoke_args(args: Seq<Seq<char>>) -> Result<Option<(Seq<char>, Seq<Seq<char>>)>, Seq<char>> {
    match scan_smoke_args(args, 1, None, None) {
        Err(e) => Err(e),
        Ok((None, _)) => Ok(None),
        Ok((Some(dir), views)) => match smoke_views(
            match views {
                Some(v) => v,
                None => Seq::empty(),
            },
        ) {
            Ok(v) => Ok(Some((dir, v))),
            Err(e) => Err("invalid --smoke-views: "@ + e),
        },
    }
}

/// Parses the smoke screenshot options from the program arguments (the first is the program).
#[verifier::loop_isolation(false)]
pub fn parse_smoke_args(args: &[String]) -> (r: Result<Option<SmokeConfig>, String>)
    ensures
        smoke_args(texts(args@)) == match r {
            Ok(Some(c)) => Ok(Some((c.out_dir@, texts(c.views@)))),
            Ok(None) => Ok(None),
            Err(e) => Err::<Option<(Seq<char>, Seq<Seq<char>>)>, Seq<char>>(e@),
        },
{
    let ghost a = texts(args@);
    let shot = chars_of("--smoke-screenshot");
    let shot_eq = chars_of("--smoke-screenshot=");
    let views_flag = chars_of("--smoke-views");
    let views_eq = chars_of("--smoke-views=");
    proof {
        reveal_strlit("--smoke-screenshot=");
        reveal_strlit("--smoke-views=");
    }
    let mut out_dir: Option<Vec<char>> = None;
    let mut views_spec: Option<Vec<char>> = None;
    let mut i: usize = 1;
    let ghost opt_view = |o: Option<Vec<char>>| match o {
        Some(v) => Some(v@),
        None => None::<Seq<char>>,
    };
    while i < args.len()
        invariant
            a == texts(args@),
            1 <= i,
            scan_smoke_args(a, 1, None, None) == scan_smoke_args(a, i as int, opt_view(out_dir), opt_view(views_spec)),
        decreases args@.len() - i,
    {
        let arg = chars_of(args[i].as_str());
        assert(arg@ == a[i as int]);
        if chars_eq(arg.as_slice(), shot.as_slice()) {
            if i + 1 < args.len() {
                let next = chars_of(args[i + 1].as_str());
                assert(next@ == a[i + 1]);
                out_dir = Some(next);
                i = i + 2;
            } else {
                out_dir = None;
                i = i + 1;
            }
            continue;
        }
        match strip_prefix_chars(arg.as_slice(), shot_eq.as_slice()) {
            Some(path) => {
                out_dir = Some(path);
                i = i + 1;
                continue;
            },
            None => {},
        }
        if chars_eq(arg.as_slice(), views_flag.as_slice()) {
            if i + 1 >= args.len() {
                return Err(String::from_str("invalid --smoke-views: missing value"));
            }
            let value = chars_of(args[i + 1].as_str());
            assert(value@ == a[i + 1]);
            if value.len() > 0 && value[0] == '-' {
                let mut message = String::from_str("invalid --smoke-views: missing value before '");
                message.append(args[i + 1].as_str());
                message.append("'");
                return Err(message);
            }
            views_spec = Some(value);
            i = i + 2;
            continue;
        }
        match strip_prefix_chars(arg.as_slice(), views_eq.as_slice()) {
            Some(spec) => {
                if spec.len() == 0 {
                    return Err(String::from_str("invalid --smoke-views: missing value"));
                }
                views_spec = Some(spec);
            },
            None => {},
        }
        i = i + 1;
    }
    match out_dir {
        None => Ok(None),
        Some(dir) => {
            let spec_text = match views_spec {
                Some(v) => string_of(v.as_slice()),
                None => String::new(),
            };
            match parse_smoke_views(spec_text.as_str()) {
                Ok(views) => Ok(Some(SmokeConfig { out_dir: string_of(dir.as_slice()), views })),
                Err(e) => {
                    let mut message = String::from_str("invalid --smoke-views: ");
                    message.append(e.as_str());
                    Err(message)
                },
            }
        },
    }
}


/// The screenshot directory named by the first `--smoke-screenshot DIR` or
/// `--smoke-screenshot=DIR` at or after `args[i]` (none when the flag ends the list).
pub open spec fn smoke_outdir_from(args: Seq<Seq<char>>, i: int) -> Option<Seq<char>>
    decreases args.len() - i,
{
    if i < 0 || i >= args.len() {
        None
    } else if args[i] == "--smoke-screenshot"@ {
        if i + 1 < args.len() {
            Some(args[i + 1])
        } else {
            None
        }
    } else if has_prefix(args[i], "--smoke-screenshot="@) {
        Some(args[i].subrange(19, args[i].len() as int))
    } else {
        smoke_outdir_from(args, i + 1)
    }
}

/// The screenshot directory from the program arguments (the first is the program).
pub fn parse_smoke_outdir(args: &[String]) -> (r: Option<String>)
    ensures
        match r {
            Some(dir) => smoke_outdir_from(texts(args@), 1) == Some(dir@),
            None => smoke_outdir_from(texts(args@), 1) is None,
        },
{
    let ghost a = texts(args@);
    let shot = chars_of("--smoke-screenshot");
    let shot_eq = chars_of("--smoke-screenshot=");
    proof {
        reveal_strlit("--smoke-screenshot=");
    }
    let mut i: usize = 1;
    while i < args.len()
        invariant
            a == texts(args@),
            1 <= i,
            shot@ == "--smoke-screenshot"@,
            shot_eq@ == "--smoke-screenshot="@,
            "--smoke-screenshot="@.len() == 19,
            smoke_outdir_from(a, 1) == smoke_outdir_from(a, i as int),
        decreases args@.len() - i,
    {
        let arg = chars_of(args[i].as_str());
        assert(arg@ == a[i as int]);
        if chars_eq(arg.as_slice(), shot.as_slice()) {
            if i + 1 < args.len() {
                let next = args[i + 1].clone();
                assert(next@ == a[i + 1]);
                return Some(next);
            }
            return None;
        }
        match strip_prefix_chars(arg.as_slice(), shot_eq.as_slice()) {
            Some(path) => {
                return Some(string_of(path.as_slice()));
            },
            None => {},
        }
        i = i + 1;
    }
    None
}

} // verus!
