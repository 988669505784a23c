//! The includes of templates: which templates a source includes, and
//! whether the includes among a set of templates come to an end.

use crate::text::{copy_range, same_text, texts};
use vstd::prelude::*;

verus! {

/// White space between the parts of a template's tag.
pub open spec fn is_gap(c: char) -> bool {
    c == ' ' || c == '\t' || c == '\n' || c == '\r'
}

/// What may stand between the two braces that open a tag and the mark of
/// its kind: more braces, a tilde, white space.
pub open spec fn is_lead(c: char) -> bool {
    c == '{' || c == '~' || is_gap(c)
}

/// A character of a plain template name: an ASCII letter or digit, a
/// hyphen or an underscore.
pub open spec fn is_plain(c: char) -> bool {
    ('a' <= c <= 'z') || ('A' <= c <= 'Z') || ('0' <= c <= '9') || c == '-' || c == '_'
}

/// What may follow a plain name in a tag: white space, a closing brace or
/// a tilde.
pub open spec fn ends_name(c: char) -> bool {
    is_gap(c) || c == '}' || c == '~'
}

/// The first index at or after `i` whose character is no lead.
pub open spec fn after_lead(s: Seq<char>, i: int) -> int
    decreases s.len() - i,
{
    if 0 <= i < s.len() && is_lead(s[i]) {
        after_lead(s, i + 1)
    } else {
        i
    }
}

/// The first index at or after `i` whose character is no white space.
pub open spec fn after_gap(s: Seq<char>, i: int) -> int
    decreases s.len() - i,
{
    if 0 <= i < s.len() && is_gap(s[i]) {
        after_gap(s, i + 1)
    } else {
        i
    }
}

/// The first index at or after `i` whose character is no character of a
/// plain name.
pub open spec fn after_name(s: Seq<char>, i: int) -> int
    decreases s.len() - i,
{
    if 0 <= i < s.len() && is_plain(s[i]) {
        after_name(s, i + 1)
    } else {
        i
    }
}

/// What the two braces at an index of a source may open.
pub enum Mark {
    /// No include.
    Nothing,
    /// An include of the template with this plain name.
    Include(Seq<char>),
    /// An include of another form, or a decorator: a name that is not
    /// plain or is computed, a block that is handed to the included
    /// template, a template defined inside the source.
    Refused,
}

/// What the characters from index `p` on may open. Two braces open a tag;
/// after more braces, a tilde and white space, `>` marks an include, `*` a
/// decorator, and `#` before one of the two a block of that kind. This
/// reads every include that the engine reads, and some text that the
/// engine takes for something else.
pub open spec fn mark_at(s: Seq<char>, p: int) -> Mark {
    if p < 0 || p + 2 > s.len() || s[p] != '{' || s[p + 1] != '{' {
        Mark::Nothing
    } else {
        let q = after_lead(s, p + 2);
        if q >= s.len() {
            Mark::Nothing
        } else if s[q] == '*' {
            Mark::Refused
        } else if s[q] == '#' {
            let r = after_gap(s, q + 1);
            if r < s.len() && (s[r] == '>' || s[r] == '*') {
                Mark::Refused
            } else {
                Mark::Nothing
            }
        } else if s[q] == '>' {
            let a = after_gap(s, q + 1);
            let b = after_name(s, a);
            if a < b && b < s.len() && ends_name(s[b]) {
                Mark::Include(s.subrange(a, b))
            } else {
                Mark::Refused
            }
        } else {
            Mark::Nothing
        }
    }
}

/// Whether every include of a source names its template plainly, and the
/// source holds no decorator.
pub open spec fn plain_includes(s: Seq<char>) -> bool {
    forall|p: int| 0 <= p < s.len() ==> #[trigger] mark_at(s, p) != Mark::Refused
}

/// Whether a source includes the template `name`.
pub open spec fn includes(s: Seq<char>, name: Seq<char>) -> bool {
    exists|p: int| 0 <= p < s.len() && #[trigger] mark_at(s, p) == Mark::Include(name)
}

/// Whether the includes of the template `name` come to an end within
/// `depth` steps: every held template that it includes comes to an end
/// within one step less.
pub open spec fn nests_within(sources: Map<Seq<char>, Seq<char>>, name: Seq<char>, depth: nat) -> bool
    decreases depth,
{
    depth > 0 && forall|m: Seq<char>|
        #[trigger] includes(sources[name], m) && sources.dom().contains(m) ==> nests_within(
            sources,
            m,
            (depth - 1) as nat,
        )
}

/// Whether the includes among the templates form no cycle: those of every
/// template come to an end within some number of steps.
pub open spec fn no_cycle(sources: Map<Seq<char>, Seq<char>>) -> bool {
    forall|n: Seq<char>| #[trigger]
        sources.dom().contains(n) ==> exists|d: nat| nests_within(sources, n, d)
}

/// Whether every template names its includes plainly.
pub open spec fn all_plain(sources: Map<Seq<char>, Seq<char>>) -> bool {
    forall|n: Seq<char>| #[trigger] sources.dom().contains(n) ==> plain_includes(sources[n])
}

/// Whether rendering with these templates comes to an end: every include
/// names a template plainly, and the includes form no cycle.
pub open spec fn renders(sources: Map<Seq<char>, Seq<char>>) -> bool {
    all_plain(sources) && no_cycle(sources)
}

/// What comes to an end within some steps does so within one more.
pub proof fn lemma_nests_longer(sources: Map<Seq<char>, Seq<char>>, name: Seq<char>, depth: nat)
    requires
        nests_within(sources, name, depth),
    ensures
        nests_within(sources, name, depth + 1),
    decreases depth,
{
    assert forall|m: Seq<char>| #[trigger]
        includes(sources[name], m) && sources.dom().contains(m) implies nests_within(
        sources,
        m,
        depth,
    ) by {
        lemma_nests_longer(sources, m, (depth - 1) as nat);
    }
}

/// Where one more step settles no further template, no number of steps
/// does.
pub proof fn lemma_nests_settled(sources: Map<Seq<char>, Seq<char>>, steps: nat, depth: nat)
    requires
        forall|n: Seq<char>| #[trigger]
            sources.dom().contains(n) && nests_within(sources, n, steps + 1) ==> nests_within(
                sources,
                n,
                steps,
            ),
    ensures
        forall|n: Seq<char>| #[trigger]
            sources.dom().contains(n) && nests_within(sources, n, depth) ==> nests_within(
                sources,
                n,
                steps,
            ),
    decreases depth,
{
    if depth > 0 {
        lemma_nests_settled(sources, steps, (depth - 1) as nat);
        assert forall|n: Seq<char>| #[trigger]
            sources.dom().contains(n) && nests_within(sources, n, depth) implies nests_within(
            sources,
            n,
            steps,
        ) by {
            assert forall|m: Seq<char>| #[trigger]
                includes(sources[n], m) && sources.dom().contains(m) implies nests_within(
                sources,
                m,
                steps,
            ) by {
                assert(nests_within(sources, m, (depth - 1) as nat));
            }
            assert(nests_within(sources, n, steps + 1));
        }
    }
}

/// What was found where a tag opens.
pub enum Found {
    Nothing,
    Include(Vec<char>),
    Refused,
}

impl View for Found {
    type V = Mark;

    open spec fn view(&self) -> Mark {
        match self {
            Found::Nothing => Mark::Nothing,
            Found::Include(name) => Mark::Include(name@),
            Found::Refused => Mark::Refused,
        }
    }
}

fn lead(c: char) -> (r: bool)
    ensures
        r == is_lead(c),
{
    c == '{' || c == '~' || c == ' ' || c == '\t' || c == '\n' || c == '\r'
}

fn gap(c: char) -> (r: bool)
    ensures
        r == is_gap(c),
{
    c == ' ' || c == '\t' || c == '\n' || c == '\r'
}

fn plain(c: char) -> (r: bool)
    ensures
        r == is_plain(c),
{
    (c >= 'a' && c <= 'z') || (c >= 'A' && c <= 'Z') || (c >= '0' && c <= '9') || c == '-' || c == '_'
}

fn skip_lead(s: &Vec<char>, from: usize) -> (r: usize)
    requires
        from <= s@.len(),
    ensures
        from <= r <= s@.len(),
        r == after_lead(s@, from as int),
{
    let mut i = from;
    while i < s.len() && lead(s[i])
        invariant
            from <= i <= s@.len(),
            after_lead(s@, from as int) == after_lead(s@, i as int),
        decreases s@.len() - i,
    {
        i += 1;
    }
    i
}

fn skip_gap(s: &Vec<char>, from: usize) -> (r: usize)
    requires
        from <= s@.len(),
    ensures
        from <= r <= s@.len(),
        r == after_gap(s@, from as int),
{
    let mut i = from;
    while i < s.len() && gap(s[i])
        invariant
            from <= i <= s@.len(),
            after_gap(s@, from as int) == after_gap(s@, i as int),
        decreases s@.len() - i,
    {
        i += 1;
    }
    i
}

fn skip_name(s: &Vec<char>, from: usize) -> (r: usize)
    requires
        from <= s@.len(),
    ensures
        from <= r <= s@.len(),
        r == after_name(s@, from as int),
{
    let mut i = from;
    while i < s.len() && plain(s[i])
        invariant
            from <= i <= s@.len(),
            after_name(s@, from as int) == after_name(s@, i as int),
        decreases s@.len() - i,
    {
        i += 1;
    }
    i
}

/// What the characters from index `p` on may open.
fn find_mark(s: &Vec<char>, p: usize) -> (r: Found)
    requires
        p < s@.len(),
    ensures
        r@ == mark_at(s@, p as int),
{
    if s.len() - p < 2 || s[p] != '{' || s[p + 1] != '{' {
        return Found::Nothing;
    }
    let q = skip_lead(s, p + 2);
    if q >= s.len() {
        Found::Nothing
    } else if s[q] == '*' {
        Found::Refused
    } else if s[q] == '#' {
        let r = skip_gap(s, q + 1);
        if r < s.len() && (s[r] == '>' || s[r] == '*') {
            Found::Refused
        } else {
            Found::Nothing
        }
    } else if s[q] == '>' {
        let a = skip_gap(s, q + 1);
        let b = skip_name(s, a);
        if a < b && b < s.len() && (gap(s[b]) || s[b] == '}' || s[b] == '~') {
            Found::Include(copy_range(s, a, b))
        } else {
            Found::Refused
        }
    } else {
        Found::Nothing
    }
}

/// The names of the templates that `source` includes, or nothing where an
/// include of it does not name its template plainly.
pub fn scan(source: &Vec<char>) -> (r: Option<Vec<Vec<char>>>)
    ensures
        r is Some == plain_includes(source@),
        r is Some ==> forall|name: Seq<char>|
            texts(r->Some_0@).contains(name) <==> includes(source@, name),
{
    let mut out: Vec<Vec<char>> = Vec::new();
    let mut p: usize = 0;
    while p < source.len()
        invariant
            p <= source@.len(),
            forall|q: int| 0 <= q < p ==> #[trigger] mark_at(source@, q) != Mark::Refused,
            forall|name: Seq<char>|
                texts(out@).contains(name) <==> exists|q: int|
                    0 <= q < p && #[trigger] mark_at(source@, q) == Mark::Include(name),
        decreases source@.len() - p,
    {
        match find_mark(source, p) {
            Found::Refused => {
                return None;
            },
            Found::Nothing => {
                assert forall|name: Seq<char>| texts(out@).contains(name) <==> exists|q: int|
                    0 <= q < p + 1 && #[trigger] mark_at(source@, q) == Mark::Include(name) by {
                    if exists|q: int|
                        0 <= q < p + 1 && #[trigger] mark_at(source@, q) == Mark::Include(name) {
                        let q = choose|q: int|
                            0 <= q < p + 1 && #[trigger] mark_at(source@, q) == Mark::Include(name);
                        assert(q < p);
                    }
                }
            },
            Found::Include(found) => {
                let ghost before = out@;
                out.push(found);
                assert forall|name: Seq<char>| texts(out@).contains(name) <==> exists|q: int|
                    0 <= q < p + 1 && #[trigger] mark_at(source@, q) == Mark::Include(name) by {
                    if texts(out@).contains(name) {
                        let k = choose|k: int| 0 <= k < out@.len() && texts(out@)[k] == name;
                        if k < before.len() {
                            assert(texts(before)[k] == name);
                            assert(texts(before).contains(name));
                        } else {
                            assert(mark_at(source@, p as int) == Mark::Include(name));
                        }
                    }
                    if exists|q: int|
                        0 <= q < p + 1 && #[trigger] mark_at(source@, q) == Mark::Include(name) {
                        let q = choose|q: int|
                            0 <= q < p + 1 && #[trigger] mark_at(source@, q) == Mark::Include(name);
                        if q < p {
                            assert(texts(before).contains(name));
                            let k = choose|k: int| 0 <= k < before.len() && texts(before)[k] == name;
                            assert(texts(out@)[k] == name);
                        } else {
                            assert(texts(out@)[out@.len() - 1] == name);
                        }
                    }
                }
            },
        }
        p += 1;
    }
    Some(out)
}

/// Whether a record of names, and of the includes of each, is that of the
/// templates `sources`: every template is there once, with the names that
/// its source includes.
pub open spec fn mirrors(
    names: Seq<Vec<char>>,
    links: Seq<Vec<Vec<char>>>,
    sources: Map<Seq<char>, Seq<char>>,
) -> bool {
    &&& names.len() == links.len()
    &&& forall|i: int| 0 <= i < names.len() ==> sources.dom().contains(#[trigger] names[i]@)
    &&& forall|n: Seq<char>| #[trigger]
        sources.dom().contains(n) ==> exists|i: int| 0 <= i < names.len() && #[trigger] names[i]@ == n
    &&& forall|i: int, j: int|
        0 <= i < j < names.len() ==> #[trigger] names[i]@ != #[trigger] names[j]@
    &&& forall|i: int, m: Seq<char>|
        0 <= i < names.len() ==> (#[trigger] texts(links[i]@).contains(m) <==> includes(
            sources[names[i]@],
            m,
        ))
}

/// How many of the first `i` flags are set.
pub open spec fn count_upto(s: Seq<bool>, i: int) -> int
    decreases i,
{
    if i <= 0 {
        0
    } else {
        count_upto(s, i - 1) + if s[i - 1] {
            1int
        } else {
            0int
        }
    }
}

proof fn lemma_count_same(a: Seq<bool>, b: Seq<bool>, i: int)
    requires
        forall|j: int| 0 <= j < i ==> a[j] == b[j],
    ensures
        count_upto(a, i) == count_upto(b, i),
    decreases i,
{
    if i > 0 {
        lemma_count_same(a, b, i - 1);
    }
}

proof fn lemma_count_none(a: Seq<bool>, i: int)
    requires
        forall|j: int| 0 <= j < i ==> !a[j],
    ensures
        count_upto(a, i) == 0,
    decreases i,
{
    if i > 0 {
        lemma_count_none(a, i - 1);
    }
}

/// The index of `name` among `names`.
fn find_name(names: &Vec<Vec<char>>, name: &Vec<char>) -> (r: Option<usize>)
    ensures
        r matches Some(j) ==> j < names@.len() && names@[j as int]@ == name@,
        r is None ==> forall|j: int| 0 <= j < names@.len() ==> (#[trigger] names@[j])@ != name@,
{
    let mut j: usize = 0;
    while j < names.len()
        invariant
            j <= names@.len(),
            forall|k: int| 0 <= k < j ==> (#[trigger] names@[k])@ != name@,
        decreases names@.len() - j,
    {
        if same_text(&names[j], name) {
            return Some(j);
        }
        j += 1;
    }
    None
}

/// Whether the includes of template `i` come to an end within one step
/// more than `steps`, given in `done` which templates do within `steps`.
fn is_ready(
    names: &Vec<Vec<char>>,
    links: &Vec<Vec<Vec<char>>>,
    done: &Vec<bool>,
    i: usize,
    Ghost(sources): Ghost<Map<Seq<char>, Seq<char>>>,
    Ghost(steps): Ghost<nat>,
) -> (ready: bool)
    requires
        mirrors(names@, links@, sources),
        i < names@.len(),
        done@.len() == names@.len(),
        forall|j: int|
            0 <= j < names@.len() ==> #[trigger] done@[j] == nests_within(sources, names@[j]@, steps),
    ensures
        ready == nests_within(sources, names@[i as int]@, steps + 1),
{
    let list = &links[i];
    let mut ready = true;
    let mut l: usize = 0;
    while l < list.len()
        invariant
            l <= list@.len(),
            mirrors(names@, links@, sources),
            done@.len() == names@.len(),
            forall|j: int|
                0 <= j < names@.len() ==> #[trigger] done@[j] == nests_within(
                    sources,
                    names@[j]@,
                    steps,
                ),
            ready == (forall|x: int|
                0 <= x < l ==> (sources.dom().contains((#[trigger] list@[x])@) ==> nests_within(
                    sources,
                    list@[x]@,
                    steps,
                ))),
        decreases list@.len() - l,
    {
        match find_name(names, &list[l]) {
            Some(j) => {
                assert(done@[j as int] == nests_within(sources, names@[j as int]@, steps));
                if !done[j] {
                    ready = false;
                }
            },
            None => {
                assert(!sources.dom().contains(list@[l as int]@)) by {
                    if sources.dom().contains(list@[l as int]@) {
                        let k = choose|k: int|
                            0 <= k < names@.len() && #[trigger] names@[k]@ == list@[l as int]@;
                    }
                }
            },
        }
        l += 1;
    }
    proof {
        let source = sources[names@[i as int]@];
        let own = texts(list@);
        if ready {
            assert forall|m: Seq<char>| #[trigger]
                includes(source, m) && sources.dom().contains(m) implies nests_within(
                sources,
                m,
                steps,
            ) by {
                assert(own.contains(m));
                let x = choose|x: int| 0 <= x < own.len() && own[x] == m;
                assert(list@[x]@ == m);
            }
        } else {
            let x = choose|x: int|
                0 <= x < list@.len() && !(sources.dom().contains((#[trigger] list@[x])@)
                    ==> nests_within(sources, list@[x]@, steps));
            assert(own[x] == list@[x]@);
            assert(own.contains(list@[x]@));
            assert(includes(source, list@[x]@));
        }
    }
    ready
}

/// Whether the includes among the recorded templates form no cycle.
pub fn settles(
    names: &Vec<Vec<char>>,
    links: &Vec<Vec<Vec<char>>>,
    Ghost(sources): Ghost<Map<Seq<char>, Seq<char>>>,
) -> (ok: bool)
    requires
        mirrors(names@, links@, sources),
    ensures
        ok == no_cycle(sources),
{
    let n = names.len();
    let mut done: Vec<bool> = Vec::new();
    let mut i: usize = 0;
    while i < n
        invariant
            i <= n,
            done@.len() == i,
            forall|j: int| 0 <= j < i ==> !(#[trigger] done@[j]),
        decreases n - i,
    {
        done.push(false);
        i += 1;
    }
    let mut count: usize = 0;
    let ghost mut steps: nat = 0;
    proof {
        lemma_count_none(done@, n as int);
    }
    loop
        invariant
            n == names@.len(),
            mirrors(names@, links@, sources),
            done@.len() == n,
            forall|j: int| 0 <= j < n ==> #[trigger] done@[j] == nests_within(sources, names@[j]@, steps),
            count == count_upto(done@, n as int),
            count <= n,
        decreases n - count,
    {
        let mut next: Vec<bool> = Vec::new();
        let mut new_count: usize = 0;
        let mut changed = false;
        let mut all = true;
        let mut i: usize = 0;
        while i < n
            invariant
                i <= n,
                n == names@.len(),
                mirrors(names@, links@, sources),
                done@.len() == n,
                next@.len() == i,
                forall|j: int|
                    0 <= j < n ==> #[trigger] done@[j] == nests_within(sources, names@[j]@, steps),
                forall|j: int|
                    0 <= j < i ==> #[trigger] next@[j] == nests_within(
                        sources,
                        names@[j]@,
                        steps + 1,
                    ),
                new_count == count_upto(next@, i as int),
                new_count <= i,
                new_count >= count_upto(done@, i as int),
                changed ==> new_count > count_upto(done@, i as int),
                !changed ==> forall|j: int| 0 <= j < i ==> #[trigger] next@[j] == done@[j],
                all == (forall|j: int| 0 <= j < i ==> #[trigger] next@[j]),
            decreases n - i,
        {
            let ready = is_ready(names, links, &done, i, Ghost(sources), Ghost(steps));
            proof {
                assert(done@[i as int] == nests_within(sources, names@[i as int]@, steps));
                if done@[i as int] {
                    lemma_nests_longer(sources, names@[i as int]@, steps);
                }
                lemma_count_same(next@, next@.push(ready), i as int);
            }
            let ghost before = next@;
            let ghost all_before = all;
            next.push(ready);
            if ready {
                new_count += 1;
            } else {
                all = false;
                assert(!next@[i as int]);
            }
            if ready != done[i] {
                changed = true;
            }
            proof {
                assert forall|j: int| 0 <= j < i + 1 implies #[trigger] next@[j] == nests_within(
                    sources,
                    names@[j]@,
                    steps + 1,
                ) by {
                    if j < i {
                        assert(next@[j] == before[j]);
                    }
                }
                if all {
                    assert forall|j: int| 0 <= j < i + 1 implies #[trigger] next@[j] by {
                        if j < i {
                            assert(next@[j] == before[j]);
                        }
                    }
                }
                if !all_before {
                    let j = choose|j: int| 0 <= j < i && !(#[trigger] before[j]);
                    assert(next@[j] == before[j]);
                }
                if !changed {
                    assert forall|j: int| 0 <= j < i + 1 implies #[trigger] next@[j] == done@[j] by {
                        if j < i {
                            assert(next@[j] == before[j]);
                        }
                    }
                }
            }
            i += 1;
        }
        if !changed {
            proof {
                assert forall|m: Seq<char>| #[trigger]
                    sources.dom().contains(m) && nests_within(
                        sources,
                        m,
                        steps + 1,
                    ) implies nests_within(sources, m, steps) by {
                    let j = choose|j: int| 0 <= j < names@.len() && #[trigger] names@[j]@ == m;
                    assert(next@[j] == done@[j]);
                }
                if all {
                    assert forall|m: Seq<char>| #[trigger] sources.dom().contains(m) implies exists|
                        d: nat,
                    |
                        nests_within(sources, m, d) by {
                        let j = choose|j: int| 0 <= j < names@.len() && #[trigger] names@[j]@ == m;
                        assert(next@[j]);
                        assert(nests_within(sources, m, steps + 1));
                    }
                } else {
                    let j = choose|j: int| 0 <= j < n && !(#[trigger] next@[j]);
                    if no_cycle(sources) {
                        assert(sources.dom().contains(names@[j]@));
                        let d = choose|d: nat| nests_within(sources, names@[j]@, d);
                        lemma_nests_settled(sources, steps, d);
                        assert(nests_within(sources, names@[j]@, steps));
                        assert(done@[j]);
                        assert(next@[j] == done@[j]);
                    }
                }
            }
            return all;
        }
        done = next;
        count = new_count;
        proof {
            steps = steps + 1;
        }
    }
}

/// A copy of a list of texts.
pub fn copy_texts(v: &Vec<Vec<char>>) -> (r: Vec<Vec<char>>)
    ensures
        texts(r@) == texts(v@),
{
    let mut out: Vec<Vec<char>> = Vec::new();
    let mut i: usize = 0;
    while i < v.len()
        invariant
            i <= v@.len(),
            out@.len() == i,
            forall|k: int| 0 <= k < i ==> (#[trigger] out@[k])@ == v@[k]@,
        decreases v@.len() - i,
    {
        let item = copy_range(&v[i], 0, v[i].len());
        assert(item@ =~= v@[i as int]@);
        out.push(item);
        i += 1;
    }
    assert(texts(out@) =~= texts(v@));
    out
}

/// The record of the templates `sources` with the template `key` added, or
/// put in place of the one of that name; `found` holds the names that its
/// source includes.
pub fn record_with(
    names: &Vec<Vec<char>>,
    links: &Vec<Vec<Vec<char>>>,
    key: &Vec<char>,
    found: &Vec<Vec<char>>,
    Ghost(sources): Ghost<Map<Seq<char>, Seq<char>>>,
    Ghost(source): Ghost<Seq<char>>,
) -> (r: (Vec<Vec<char>>, Vec<Vec<Vec<char>>>))
    requires
        mirrors(names@, links@, sources),
        forall|m: Seq<char>| texts(found@).contains(m) <==> includes(source, m),
    ensures
        mirrors(r.0@, r.1@, sources.insert(key@, source)),
{
    let ghost next = sources.insert(key@, source);
    let at = find_name(names, key);
    let mut out_names: Vec<Vec<char>> = Vec::new();
    let mut out_links: Vec<Vec<Vec<char>>> = Vec::new();
    let mut i: usize = 0;
    while i < names.len()
        invariant
            i <= names@.len(),
            names@.len() == links@.len(),
            out_names@.len() == i,
            out_links@.len() == i,
            forall|k: int| 0 <= k < i ==> (#[trigger] out_names@[k])@ == names@[k]@,
            forall|k: int|
                0 <= k < i ==> texts((#[trigger] out_links@[k])@) == if at == Some(k as usize) {
                    texts(found@)
                } else {
                    texts(links@[k]@)
                },
        decreases names@.len() - i,
    {
        let name = copy_range(&names[i], 0, names[i].len());
        assert(name@ =~= names@[i as int]@);
        out_names.push(name);
        let same = match at {
            Some(j) => j == i,
            None => false,
        };
        if same {
            out_links.push(copy_texts(found));
        } else {
            out_links.push(copy_texts(&links[i]));
        }
        i += 1;
    }
    if at.is_none() {
        let name = copy_range(key, 0, key.len());
        assert(name@ =~= key@);
        out_names.push(name);
        out_links.push(copy_texts(found));
    }
    proof {
        let n = names@.len() as int;
        assert(!(at is Some) ==> !sources.dom().contains(key@)) by {
            if at is None && sources.dom().contains(key@) {
                let k = choose|k: int| 0 <= k < names@.len() && #[trigger] names@[k]@ == key@;
            }
        }
        assert forall|k: int| 0 <= k < out_names@.len() implies next.dom().contains(
            #[trigger] out_names@[k]@,
        ) by {
            if k < n {
                assert(sources.dom().contains(names@[k]@));
            }
        }
        assert forall|m: Seq<char>| #[trigger] next.dom().contains(m) implies exists|k: int|
            0 <= k < out_names@.len() && #[trigger] out_names@[k]@ == m by {
            if sources.dom().contains(m) {
                let k = choose|k: int| 0 <= k < names@.len() && #[trigger] names@[k]@ == m;
                assert(out_names@[k]@ == m);
            } else {
                assert(m == key@);
                assert(at is None);
                assert(out_names@[n]@ == m);
            }
        }
        assert forall|a: int, b: int| 0 <= a < b < out_names@.len() implies #[trigger] out_names@[a]@
            != #[trigger] out_names@[b]@ by {
            if b < n {
                assert(names@[a]@ != names@[b]@);
            } else {
                assert(sources.dom().contains(names@[a]@));
            }
        }
        assert forall|k: int, m: Seq<char>| 0 <= k < out_names@.len() implies (#[trigger] texts(
            out_links@[k]@,
        ).contains(m) <==> includes(next[out_names@[k]@], m)) by {
            if k < n {
                if at == Some(k as usize) {
                    assert(out_names@[k]@ == key@);
                } else {
                    assert(out_names@[k]@ != key@) by {
                        if at is Some {
                            let j = at->Some_0 as int;
                            if j < k {
                                assert(names@[j]@ != names@[k]@);
                            } else {
                                assert(names@[k]@ != names@[j]@);
                            }
                        } else {
                            assert(sources.dom().contains(names@[k]@));
                        }
                    }
                    assert(texts(links@[k]@).contains(m) <==> includes(sources[names@[k]@], m));
                }
            }
        }
    }
    (out_names, out_links)
}

/// Two templates that include each other form a cycle, and so does one
/// that includes itself.
pub proof fn lemma_mutual_includes_cycle(sources: Map<Seq<char>, Seq<char>>, a: Seq<char>, b: Seq<char>)
    requires
        sources.dom().contains(a),
        sources.dom().contains(b),
        includes(sources[a], b),
        includes(sources[b], a),
    ensures
        !no_cycle(sources),
{
    if no_cycle(sources) {
        let d = choose|d: nat| nests_within(sources, a, d);
        lemma_never_nests(sources, a, b, d);
    }
}

proof fn lemma_never_nests(sources: Map<Seq<char>, Seq<char>>, a: Seq<char>, b: Seq<char>, depth: nat)
    requires
        sources.dom().contains(a),
        sources.dom().contains(b),
        includes(sources[a], b),
        includes(sources[b], a),
    ensures
        !nests_within(sources, a, depth),
        !nests_within(sources, b, depth),
    decreases depth,
{
    if depth > 0 {
        lemma_never_nests(sources, a, b, (depth - 1) as nat);
    }
}

} // verus!
