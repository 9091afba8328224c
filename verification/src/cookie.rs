//! Cookies: reading one out of a `Set-Cookie` value, the jar that keeps the
//! current value of each, and the `Cookie` value that replays them.

use crate::header::{is_set_cookie, is_set_cookie_name, RawHeader, RawHeaderView};
use crate::text::{chars_of, find_char, first_index, text_between, trim, trim_bounds};
use vstd::prelude::*;
use vstd::string::StringExecFns;
use vstd::utf8::{decode_utf8, valid_utf8};

verus! {

/// A cookie: its name and its current value, nothing else.
#[derive(Clone, Debug, PartialEq, Eq)]
pub struct Cookie {
    pub name: String,
    pub value: String,
}

/// What a cookie holds: the name, then the value.
pub type Pair = (Seq<char>, Seq<char>);

impl View for Cookie {
    type V = Pair;

    open spec fn view(&self) -> Pair {
        (self.name@, self.value@)
    }
}

impl DeepView for Cookie {
    type V = Pair;

    open spec fn deep_view(&self) -> Pair {
        self@
    }
}

/// The name and value that a `Set-Cookie` value `v` gives, if it gives any.
///
/// Only what stands before the first `;` counts. It must hold a `=`: the
/// name is what stands before the first one and the value what stands after
/// it, both without the whitespace around them. A value may be empty, a name
/// may not.
pub open spec fn parsed_cookie(v: Seq<char>) -> Option<Pair> {
    let head = v.take(first_index(v, ';'));
    let eq = first_index(head, '=');
    let name = trim(head.take(eq));
    let value = trim(head.skip(eq + 1));
    if eq < head.len() && name.len() > 0 {
        Some((name, value))
    } else {
        None
    }
}

/// Position of the first pair in `pairs` whose name is `name`, or
/// `pairs.len()` when there is none.
pub open spec fn position(pairs: Seq<Pair>, name: Seq<char>) -> int
    decreases pairs.len(),
{
    if pairs.len() == 0 {
        0
    } else if pairs[0].0 == name {
        0
    } else {
        1 + position(pairs.drop_first(), name)
    }
}

/// No two pairs in `pairs` have the same name.
pub open spec fn distinct_names(pairs: Seq<Pair>) -> bool {
    forall|i: int, j: int| 0 <= i < j < pairs.len() ==> pairs[i].0 != pairs[j].0
}

/// The mapping from name to value that `pairs` stands for.
pub open spec fn pairs_map(pairs: Seq<Pair>) -> Map<Seq<char>, Seq<char>> {
    Map::new(
        |name: Seq<char>| position(pairs, name) < pairs.len(),
        |name: Seq<char>| pairs[position(pairs, name)].1,
    )
}

/// `pairs` after `name` was given the value `value`: the pair of that name
/// is overwritten where it stands, or a new pair comes last.
pub open spec fn upsert(pairs: Seq<Pair>, name: Seq<char>, value: Seq<char>) -> Seq<Pair> {
    let at = position(pairs, name);
    if at < pairs.len() {
        pairs.update(at, (name, value))
    } else {
        pairs.push((name, value))
    }
}

/// The cookie that the response header `h` sets, if it sets one: its name
/// must be `set-cookie` in any case of letters, its value text that gives a
/// name and a value.
pub open spec fn cookie_set_by(h: RawHeaderView) -> Option<Pair> {
    if is_set_cookie_name(h.name) && valid_utf8(h.value) {
        parsed_cookie(decode_utf8(h.value))
    } else {
        None
    }
}

/// `pairs` after the cookies that the response headers `raw` set were
/// stored, one header after the other.
pub open spec fn pairs_after(pairs: Seq<Pair>, raw: Seq<RawHeaderView>) -> Seq<Pair>
    decreases raw.len(),
{
    if raw.len() == 0 {
        pairs
    } else {
        let before = pairs_after(pairs, raw.drop_last());
        match cookie_set_by(raw.last()) {
            Some(c) => upsert(before, c.0, c.1),
            None => before,
        }
    }
}

/// One cookie as it stands in a `Cookie` header.
pub open spec fn pair_text(c: Pair) -> Seq<char> {
    c.0 + "="@ + c.1
}

/// The value of the `Cookie` header that replays `pairs`: each as
/// `name=value`, in order, with `"; "` between two of them.
pub open spec fn cookie_text(pairs: Seq<Pair>) -> Seq<char>
    decreases pairs.len(),
{
    if pairs.len() == 0 {
        Seq::empty()
    } else if pairs.len() == 1 {
        pair_text(pairs[0])
    } else {
        cookie_text(pairs.drop_last()) + "; "@ + pair_text(pairs.last())
    }
}

/// `position(pairs, name)` lies within `pairs`, no pair before it has the
/// name, and where it is an index of `pairs` the pair there has it.
pub proof fn lemma_position(pairs: Seq<Pair>, name: Seq<char>)
    ensures
        0 <= position(pairs, name) <= pairs.len(),
        forall|j: int| 0 <= j < position(pairs, name) ==> pairs[j].0 != name,
        position(pairs, name) < pairs.len() ==> pairs[position(pairs, name)].0 == name,
    decreases pairs.len(),
{
    if pairs.len() > 0 && pairs[0].0 != name {
        let rest = pairs.drop_first();
        lemma_position(rest, name);
        assert forall|j: int| 0 <= j < position(pairs, name) implies pairs[j].0 != name by {
            if j > 0 {
                assert(pairs[j] == rest[j - 1]);
            }
        }
    }
}

/// A position that has the three properties of `position(pairs, name)` is
/// it.
pub proof fn lemma_position_is(pairs: Seq<Pair>, name: Seq<char>, p: int)
    requires
        0 <= p <= pairs.len(),
        forall|j: int| 0 <= j < p ==> pairs[j].0 != name,
        p < pairs.len() ==> pairs[p].0 == name,
    ensures
        position(pairs, name) == p,
{
    lemma_position(pairs, name);
}

/// Giving a name a value keeps the names distinct and changes the mapping
/// at that name only.
pub proof fn lemma_upsert(pairs: Seq<Pair>, name: Seq<char>, value: Seq<char>)
    requires
        distinct_names(pairs),
    ensures
        distinct_names(upsert(pairs, name, value)),
        pairs_map(upsert(pairs, name, value)) == pairs_map(pairs).insert(name, value),
{
    let after = upsert(pairs, name, value);
    let at = position(pairs, name);
    lemma_position(pairs, name);
    assert(distinct_names(after));
    let want = pairs_map(pairs).insert(name, value);
    assert forall|k: Seq<char>| #[trigger]
        pairs_map(after).dom().contains(k) == want.dom().contains(k) && (want.dom().contains(k)
            ==> pairs_map(after)[k] == want[k]) by {
        lemma_position(pairs, k);
        if k == name {
            lemma_position_is(after, k, at);
        } else if position(pairs, k) < pairs.len() {
            lemma_position_is(after, k, position(pairs, k));
        } else {
            lemma_position_is(after, k, after.len() as int);
        }
    }
    assert(pairs_map(after) =~= pairs_map(pairs).insert(name, value));
}

/// What stands in a jar of distinct names is what its mapping holds: a pair
/// is in `pairs` exactly when the mapping takes its name to its value.
pub proof fn lemma_pairs_map(pairs: Seq<Pair>)
    requires
        distinct_names(pairs),
    ensures
        forall|i: int|
            0 <= i < pairs.len() ==> pairs_map(pairs).contains_pair(
                (#[trigger] pairs[i]).0,
                pairs[i].1,
            ),
        forall|name: Seq<char>, value: Seq<char>|
            #[trigger] pairs_map(pairs).contains_pair(name, value) ==> pairs.contains(
                (name, value),
            ),
        pairs_map(pairs).dom().finite(),
        pairs_map(pairs).len() == pairs.len(),
    decreases pairs.len(),
{
    assert forall|i: int| 0 <= i < pairs.len() implies pairs_map(pairs).contains_pair(
        (#[trigger] pairs[i]).0,
        pairs[i].1,
    ) by {
        lemma_position_is(pairs, pairs[i].0, i);
    }
    assert forall|name: Seq<char>, value: Seq<char>| #[trigger]
        pairs_map(pairs).contains_pair(name, value) implies pairs.contains((name, value)) by {
        lemma_position(pairs, name);
        assert(pairs[position(pairs, name)] == (name, value));
    }
    if pairs.len() == 0 {
        assert(pairs_map(pairs) =~= Map::<Seq<char>, Seq<char>>::empty());
    } else {
        let rest = pairs.drop_last();
        let last = pairs.last();
        assert(distinct_names(rest));
        lemma_pairs_map(rest);
        lemma_position(rest, last.0);
        assert(position(rest, last.0) == rest.len()) by {
            if position(rest, last.0) < rest.len() {
                assert(rest[position(rest, last.0)] == pairs[position(rest, last.0)]);
            }
        }
        assert(upsert(rest, last.0, last.1) =~= pairs);
        lemma_upsert(rest, last.0, last.1);
        assert(!pairs_map(rest).contains_key(last.0));
    }
}

/// Reads the name and the value out of a `Set-Cookie` value. Gives nothing
/// where the value holds no `=` before its first `;`, or no name before the
/// `=`; the attributes that follow the first `;` are left out.
pub fn parse_cookie(set_cookie: &str) -> (r: Option<(String, String)>)
    ensures
        r is Some <==> parsed_cookie(set_cookie@) is Some,
        r matches Some(c) ==> parsed_cookie(set_cookie@) == Some((c.0@, c.1@)),
{
    let chars = chars_of(set_cookie);
    let end = find_char(&chars, 0, chars.len(), ';');
    let eq = find_char(&chars, 0, end, '=');
    let ghost head = set_cookie@.take(end as int);
    proof {
        assert(chars@.subrange(0, chars.len() as int) =~= set_cookie@);
        assert(chars@.subrange(0, end as int) =~= head);
    }
    if eq == end {
        return None;
    }
    let (a, b) = trim_bounds(&chars, 0, eq);
    let (c, d) = trim_bounds(&chars, eq + 1, end);
    proof {
        assert(chars@.subrange(0, eq as int) =~= head.take(eq as int));
        assert(chars@.subrange(eq + 1, end as int) =~= head.skip(eq + 1));
        assert(chars@.subrange(a as int, b as int).len() == b - a);
    }
    if a == b {
        return None;
    }
    Some((text_between(set_cookie, a, b), text_between(set_cookie, c, d)))
}

/// The current value of each cookie, by name. A name occurs once; the
/// cookies stand in the order in which their names were first stored.
pub struct CookieJar {
    entries: Vec<Cookie>,
}

impl View for CookieJar {
    type V = Map<Seq<char>, Seq<char>>;

    open spec fn view(&self) -> Map<Seq<char>, Seq<char>> {
        pairs_map(self.pairs())
    }
}

impl CookieJar {
    /// The cookies in the jar, in the order in which they are replayed.
    pub closed spec fn pairs(&self) -> Seq<Pair> {
        self.entries.deep_view()
    }

    /// A name occurs once in the jar.
    #[verifier::type_invariant]
    pub open spec fn well_formed(&self) -> bool {
        distinct_names(self.pairs())
    }

    /// An empty jar.
    pub fn new() -> (jar: CookieJar)
        ensures
            jar.pairs() == Seq::<Pair>::empty(),
            jar@ == Map::<Seq<char>, Seq<char>>::empty(),
            jar.well_formed(),
    {
        let jar = CookieJar { entries: Vec::new() };
        assert(jar.pairs() =~= Seq::<Pair>::empty());
        assert(jar@ =~= Map::<Seq<char>, Seq<char>>::empty());
        jar
    }

    /// How many cookies the jar holds.
    pub fn len(&self) -> (n: usize)
        ensures
            n == self.pairs().len(),
            n == self@.len(),
    {
        proof {
            use_type_invariant(self);
            lemma_pairs_map(self.pairs());
        }
        self.entries.len()
    }

    /// Tells whether the jar holds no cookie.
    pub fn is_empty(&self) -> (r: bool)
        ensures
            r == (self.pairs().len() == 0),
            r == (self@.len() == 0),
    {
        self.len() == 0
    }

    /// Where the cookie of the given name stands among the entries, or their
    /// number when there is none.
    fn find(&self, name: &String) -> (at: usize)
        ensures
            at == position(self.pairs(), name@),
            at <= self.entries.len(),
    {
        let mut at: usize = 0;
        while at < self.entries.len() && !(self.entries[at].name == *name)
            invariant
                at <= self.entries.len(),
                forall|j: int| 0 <= j < at ==> self.pairs()[j].0 != name@,
            decreases self.entries.len() - at,
        {
            at += 1;
        }
        proof {
            lemma_position_is(self.pairs(), name@, at as int);
        }
        at
    }

    /// The current value of the cookie of the given name.
    pub fn get(&self, name: &str) -> (r: Option<String>)
        ensures
            r is Some <==> self@.contains_key(name@),
            r matches Some(value) ==> value@ == self@[name@],
    {
        let key = String::from_str(name);
        let at = self.find(&key);
        if at < self.entries.len() {
            Some(self.entries[at].value.clone())
        } else {
            None
        }
    }

    /// Gives the cookie `name` the value `value`: an earlier value of that
    /// name is overwritten, every other cookie stays as it is.
    pub fn insert(&mut self, name: String, value: String)
        ensures
            final(self).pairs() == upsert(old(self).pairs(), name@, value@),
            final(self)@ == old(self)@.insert(name@, value@),
    {
        proof {
            use_type_invariant(&*self);
            lemma_upsert(self.pairs(), name@, value@);
        }
        let ghost before = self.pairs();
        let at = self.find(&name);
        let mut entries: Vec<Cookie> = Vec::new();
        assert(entries.deep_view() =~= Seq::<Pair>::empty());
        core::mem::swap(&mut entries, &mut self.entries);
        if at < entries.len() {
            entries.set(at, Cookie { name, value });
        } else {
            entries.push(Cookie { name, value });
        }
        assert(entries.deep_view() =~= upsert(before, name@, value@));
        self.entries = entries;
    }

    /// Stores every cookie that the response headers `raw` set, one header
    /// after the other, so that of two that set the same name the later one
    /// stays. A header that sets no cookie changes nothing.
    pub fn harvest(&mut self, raw: &Vec<RawHeader>)
        ensures
            final(self).pairs() == pairs_after(old(self).pairs(), raw.deep_view()),
    {
        let mut i: usize = 0;
        assert(raw.deep_view().take(0) =~= Seq::<RawHeaderView>::empty());
        while i < raw.len()
            invariant
                i <= raw.len(),
                self.pairs() == pairs_after(old(self).pairs(), raw.deep_view().take(i as int)),
            decreases raw.len() - i,
        {
            proof {
                let upto = raw.deep_view().take(i + 1);
                assert(upto.drop_last() =~= raw.deep_view().take(i as int));
                assert(upto.last() == raw[i as int]@);
            }
            match cookie_of(&raw[i]) {
                Some(c) => {
                    self.insert(c.0, c.1);
                },
                None => {},
            }
            i += 1;
        }
        assert(raw.deep_view().take(raw.len() as int) =~= raw.deep_view());
    }

    /// A copy of the cookies in the jar, in the order in which they are
    /// replayed.
    pub fn cookies(&self) -> (out: Vec<Cookie>)
        ensures
            out.deep_view() == self.pairs(),
    {
        let mut out: Vec<Cookie> = Vec::new();
        let mut i: usize = 0;
        assert(out.deep_view() =~= self.pairs().take(0));
        while i < self.entries.len()
            invariant
                i <= self.entries.len(),
                out.deep_view() == self.pairs().take(i as int),
            decreases self.entries.len() - i,
        {
            let ghost before = out.deep_view();
            let c = &self.entries[i];
            out.push(Cookie { name: c.name.clone(), value: c.value.clone() });
            assert(out.deep_view() =~= before.push(self.pairs()[i as int]));
            assert(self.pairs().take(i + 1) =~= self.pairs().take(i as int).push(
                self.pairs()[i as int],
            ));
            i += 1;
        }
        assert(self.pairs().take(self.entries.len() as int) =~= self.pairs());
        out
    }
}

/// The cookie that the response header `h` sets, if it sets one.
pub fn cookie_of(h: &RawHeader) -> (r: Option<(String, String)>)
    ensures
        r is Some <==> cookie_set_by(h@) is Some,
        r matches Some(c) ==> cookie_set_by(h@) == Some((c.0@, c.1@)),
{
    if !is_set_cookie(h.name.as_str()) {
        return None;
    }
    match h.decode() {
        Some(text) => parse_cookie(text.value.as_str()),
        None => None,
    }
}

/// The value of the `Cookie` header that replays the cookies in the jar:
/// each as `name=value`, with `"; "` between two of them.
pub fn build_cookie_header(cookies: &CookieJar) -> (r: String)
    ensures
        r@ == cookie_text(cookies.pairs()),
{
    let entries = cookies.cookies();
    let mut r = String::new();
    let mut i: usize = 0;
    assert(entries.deep_view().take(0) =~= Seq::<Pair>::empty());
    while i < entries.len()
        invariant
            i <= entries.len(),
            r@ == cookie_text(entries.deep_view().take(i as int)),
        decreases entries.len() - i,
    {
        proof {
            let upto = entries.deep_view().take(i + 1);
            assert(upto.drop_last() =~= entries.deep_view().take(i as int));
            assert(upto.last() == entries[i as int]@);
        }
        let ghost before = r@;
        if i > 0 {
            r.append("; ");
        }
        r.append(entries[i].name.as_str());
        r.append("=");
        r.append(entries[i].value.as_str());
        assert(r@ =~= (if i > 0 {
            before + "; "@
        } else {
            before
        }) + pair_text(entries[i as int]@));
        i += 1;
    }
    assert(entries.deep_view().take(entries.len() as int) =~= entries.deep_view());
    r
}

} // verus!
