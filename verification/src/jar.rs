//! The session-scoped cookie jar and its persisted snapshot: one line
//! per cookie, name, value and attributes separated by tabs. Rendering
//! and parsing invert each other on well-formed jars.

use vstd::prelude::*;

verus! {

/// One cookie accumulated during a session: its name, its value, and
/// its remaining attributes packed into one field.
#[derive(Debug, Clone)]
pub struct CookieEntry {
    pub name: String,
    pub value: String,
    pub attrs: String,
}

/// The credentials of one login session: the cookies its HTTP
/// exchanges accumulated, bound to exactly one secret and never shared
/// across sessions.
#[derive(Debug, Clone)]
pub struct CookieJar {
    pub entries: Vec<CookieEntry>,
}

/// Text that can stand in a snapshot field: free of the tab and
/// newline separators.
pub open spec fn clean_text(s: Seq<char>) -> bool {
    forall|i: int| 0 <= i < s.len() ==> #[trigger] s[i] != '\t' && s[i] != '\n'
}

/// Text free of newlines.
pub open spec fn newline_free(s: Seq<char>) -> bool {
    forall|i: int| 0 <= i < s.len() ==> #[trigger] s[i] != '\n'
}

/// The three fields of an entry, as character sequences.
pub open spec fn entry_view(e: CookieEntry) -> (Seq<char>, Seq<char>, Seq<char>) {
    (e.name@, e.value@, e.attrs@)
}

/// All three fields are free of the separators.
pub open spec fn triple_clean(t: (Seq<char>, Seq<char>, Seq<char>)) -> bool {
    clean_text(t.0) && clean_text(t.1) && clean_text(t.2)
}

impl CookieEntry {
    /// The entry can be snapshotted and recovered: its fields hold no
    /// separator character.
    pub open spec fn wf(self) -> bool {
        triple_clean(entry_view(self))
    }
}

impl CookieJar {
    /// The jar's entries as field triples.
    pub open spec fn view_entries(self) -> Seq<(Seq<char>, Seq<char>, Seq<char>)> {
        self.entries@.map_values(|e: CookieEntry| entry_view(e))
    }

    /// Every entry is well formed.
    pub open spec fn wf(self) -> bool {
        forall|i: int| 0 <= i < self.entries@.len() ==> (#[trigger] self.entries@[i]).wf()
    }
}

/// The snapshot line of one entry, without its terminating newline.
pub open spec fn line_of(t: (Seq<char>, Seq<char>, Seq<char>)) -> Seq<char> {
    t.0 + seq!['\t'] + t.1 + seq!['\t'] + t.2
}

/// The snapshot text of one entry: its line and a newline.
pub open spec fn render_entry_of(t: (Seq<char>, Seq<char>, Seq<char>)) -> Seq<char> {
    line_of(t) + seq!['\n']
}

/// The snapshot text of a whole jar: the lines of its entries in
/// order.
pub open spec fn render_jar_of(s: Seq<(Seq<char>, Seq<char>, Seq<char>)>) -> Seq<char>
    decreases s.len(),
{
    if s.len() == 0 {
        Seq::empty()
    } else {
        render_entry_of(s.first()) + render_jar_of(s.drop_first())
    }
}

/// A line split at its first two tabs into name, value and
/// attributes; `None` when it holds fewer than two tabs.
pub open spec fn split_line(line: Seq<char>) -> Option<(Seq<char>, Seq<char>, Seq<char>)> {
    match line.index_of_first('\t') {
        Some(t1) => {
            let name = line.subrange(0, t1);
            let rest = line.subrange(t1 + 1, line.len() as int);
            match rest.index_of_first('\t') {
                Some(t2) => Some(
                    (name, rest.subrange(0, t2), rest.subrange(t2 + 1, rest.len() as int)),
                ),
                None => None,
            }
        },
        None => None,
    }
}

/// Snapshot text parsed back into entry triples: one entry per
/// newline-terminated line; `None` on any malformed line or an
/// unterminated tail.
pub open spec fn parse_jar_of(t: Seq<char>) -> Option<Seq<(Seq<char>, Seq<char>, Seq<char>)>>
    decreases t.len(),
{
    if t.len() == 0 {
        Some(Seq::empty())
    } else {
        match t.index_of_first('\n') {
            Some(k) => if 0 <= k < t.len() {
                match split_line(t.subrange(0, k)) {
                    Some(e) => match parse_jar_of(t.subrange(k + 1, t.len() as int)) {
                        Some(rest) => Some(seq![e] + rest),
                        None => None,
                    },
                    None => None,
                }
            } else {
                None
            },
            None => None,
        }
    }
}

proof fn lemma_render_snoc(
    s: Seq<(Seq<char>, Seq<char>, Seq<char>)>,
    x: (Seq<char>, Seq<char>, Seq<char>),
)
    ensures
        render_jar_of(s.push(x)) == render_jar_of(s) + render_entry_of(x),
    decreases s.len(),
{
    if s.len() == 0 {
        assert(s.push(x).drop_first() =~= Seq::<(Seq<char>, Seq<char>, Seq<char>)>::empty());
        assert(s.push(x).first() == x);
        assert(render_jar_of(s.push(x)) == render_entry_of(x) + render_jar_of(
            s.push(x).drop_first(),
        ));
        assert(render_jar_of(s.push(x).drop_first()) == Seq::<char>::empty());
        assert(render_jar_of(s) == Seq::<char>::empty());
        assert(render_entry_of(x) + Seq::<char>::empty() =~= Seq::<char>::empty()
            + render_entry_of(x));
    } else {
        assert(s.push(x).first() == s.first());
        assert(s.push(x).drop_first() =~= s.drop_first().push(x));
        assert(render_jar_of(s.push(x)) == render_entry_of(s.first()) + render_jar_of(
            s.drop_first().push(x),
        ));
        lemma_render_snoc(s.drop_first(), x);
        assert(render_entry_of(s.first()) + (render_jar_of(s.drop_first()) + render_entry_of(x))
            =~= (render_entry_of(s.first()) + render_jar_of(s.drop_first())) + render_entry_of(x));
    }
}

/// The snapshot of a jar, as the text written to durable storage.
pub fn render_snapshot(jar: &CookieJar) -> (r: String)
    ensures
        r@ == render_jar_of(jar.view_entries()),
{
    let mut out = String::new();
    let n = jar.entries.len();
    let mut i: usize = 0;
    while i < n
        invariant
            n == jar.entries@.len(),
            i <= n,
            out@ == render_jar_of(jar.view_entries().subrange(0, i as int)),
        decreases n - i,
    {
        out.append(jar.entries[i].name.as_str());
        out.append("\t");
        out.append(jar.entries[i].value.as_str());
        out.append("\t");
        out.append(jar.entries[i].attrs.as_str());
        out.append("\n");
        proof {
            reveal_strlit("\t");
            reveal_strlit("\n");
            assert("\t"@ =~= seq!['\t']);
            assert("\n"@ =~= seq!['\n']);
            let vs = jar.view_entries();
            lemma_render_snoc(vs.subrange(0, i as int), vs[i as int]);
            assert(vs.subrange(0, i as int).push(vs[i as int]) =~= vs.subrange(0, i + 1 as int));
            assert(out@ =~= render_jar_of(vs.subrange(0, i as int)) + render_entry_of(
                vs[i as int],
            ));
        }
        i += 1;
    }
    proof {
        assert(jar.view_entries().subrange(0, n as int) =~= jar.view_entries());
    }
    out
}

fn find_char(t: &str, c: char) -> (r: Option<usize>)
    ensures
        match r {
            Some(k) => t@.index_of_first(c) == Some(k as int),
            None => t@.index_of_first(c) is None,
        },
{
    let n = t.unicode_len();
    let mut i: usize = 0;
    while i < n
        invariant
            n == t@.len(),
            i <= n,
            forall|j: int| 0 <= j < i ==> #[trigger] t@[j] != c,
        decreases n - i,
    {
        if t.get_char(i) == c {
            proof {
                lemma_index_of_first_is(t@, c, i as int);
            }
            return Some(i);
        }
        i += 1;
    }
    proof {
        t@.index_of_first_ensures(c);
        if t@.index_of_first(c) is Some {
            let k = t@.index_of_first(c)->Some_0;
            assert(t@[k] != c);
        }
    }
    None
}

proof fn lemma_index_of_first_is(t: Seq<char>, c: char, k: int)
    requires
        0 <= k < t.len(),
        t[k] == c,
        forall|j: int| 0 <= j < k ==> #[trigger] t[j] != c,
    ensures
        t.index_of_first(c) == Some(k),
{
    t.index_of_first_ensures(c);
    match t.index_of_first(c) {
        Some(ix) => {
            if ix < k {
                assert(t[ix] != c);
            } else if ix > k {
                assert(t[k] != c);
            }
        },
        None => {
            assert(t.contains(c)) by {
                assert(t[k] == c);
            }
        },
    }
}

fn parse_entries(t: &str) -> (r: Option<Vec<CookieEntry>>)
    ensures
        match r {
            Some(v) => parse_jar_of(t@) == Some(
                v@.map_values(|e: CookieEntry| entry_view(e)),
            ),
            None => parse_jar_of(t@) is None,
        },
    decreases t@.len(),
{
    let n = t.unicode_len();
    if n == 0 {
        let v: Vec<CookieEntry> = Vec::new();
        proof {
            assert(v@.map_values(|e: CookieEntry| entry_view(e)) =~= Seq::<
                (Seq<char>, Seq<char>, Seq<char>),
            >::empty());
        }
        return Some(v);
    }
    let k = match find_char(t, '\n') {
        Some(k) => k,
        None => {
            return None;
        },
    };
    proof {
        t@.index_of_first_ensures('\n');
    }
    let line = t.substring_char(0, k);
    let rest = t.substring_char(k + 1, n);
    let k1 = match find_char(line, '\t') {
        Some(k1) => k1,
        None => {
            return None;
        },
    };
    proof {
        line@.index_of_first_ensures('\t');
    }
    let name = line.substring_char(0, k1);
    let tail = line.substring_char(k1 + 1, k);
    let k2 = match find_char(tail, '\t') {
        Some(k2) => k2,
        None => {
            return None;
        },
    };
    proof {
        tail@.index_of_first_ensures('\t');
    }
    let value = tail.substring_char(0, k2);
    let attrs = tail.substring_char(k2 + 1, k - k1 - 1);
    let entry = CookieEntry {
        name: name.to_owned(),
        value: value.to_owned(),
        attrs: attrs.to_owned(),
    };
    let mut v = match parse_entries(rest) {
        Some(v) => v,
        None => {
            return None;
        },
    };
    let ghost old_v = v@;
    v.insert(0, entry);
    proof {
        let f = |e: CookieEntry| entry_view(e);
        assert(v@ =~= seq![entry] + old_v);
        assert(v@.map_values(f) =~~= seq![entry_view(entry)] + old_v.map_values(f));
        assert(parse_jar_of(t@) == Some(seq![entry_view(entry)] + old_v.map_values(f)));
    }
    Some(v)
}

/// A snapshot text parsed back into a jar; `None` exactly when the
/// text is not a well-formed snapshot.
pub fn parse_snapshot(text: &str) -> (r: Option<CookieJar>)
    ensures
        match r {
            Some(jar) => parse_jar_of(text@) == Some(jar.view_entries()),
            None => parse_jar_of(text@) is None,
        },
{
    match parse_entries(text) {
        Some(entries) => Some(CookieJar { entries }),
        None => None,
    }
}

proof fn lemma_line_shape(x: (Seq<char>, Seq<char>, Seq<char>))
    requires
        triple_clean(x),
    ensures
        line_of(x).len() == x.0.len() + 1 + x.1.len() + 1 + x.2.len(),
        newline_free(line_of(x)),
{
    let line = line_of(x);
    let a = x.0.len() as int;
    let b = x.1.len() as int;
    assert forall|j: int| 0 <= j < line.len() implies #[trigger] line[j] != '\n' by {
        if j < a {
            assert(line[j] == x.0[j]);
        } else if j == a {
            assert(line[j] == '\t');
        } else if j < a + 1 + b {
            assert(line[j] == x.1[j - a - 1]);
        } else if j == a + 1 + b {
            assert(line[j] == '\t');
        } else {
            assert(line[j] == x.2[j - a - 1 - b - 1]);
        }
    }
}

proof fn lemma_split_rendered_line(x: (Seq<char>, Seq<char>, Seq<char>))
    requires
        triple_clean(x),
    ensures
        split_line(line_of(x)) == Some(x),
{
    let line = line_of(x);
    let a = x.0.len() as int;
    let b = x.1.len() as int;
    let c = x.2.len() as int;
    lemma_line_shape(x);
    assert(line[a] == '\t');
    assert forall|j: int| 0 <= j < a implies #[trigger] line[j] != '\t' by {
        assert(line[j] == x.0[j]);
    }
    lemma_index_of_first_is(line, '\t', a);
    assert(line.subrange(0, a) =~= x.0);
    let rest = line.subrange(a + 1, line.len() as int);
    assert(rest =~= x.1 + seq!['\t'] + x.2);
    assert(rest[b] == '\t');
    assert forall|j: int| 0 <= j < b implies #[trigger] rest[j] != '\t' by {
        assert(rest[j] == x.1[j]);
    }
    lemma_index_of_first_is(rest, '\t', b);
    assert(rest.subrange(0, b) =~= x.1);
    assert(rest.subrange(b + 1, rest.len() as int) =~= x.2);
}

/// Round trip: the rendered snapshot of well-formed entries parses
/// back to exactly those entries, names, values and attributes alike.
pub proof fn lemma_snapshot_round_trip(entries: Seq<(Seq<char>, Seq<char>, Seq<char>)>)
    requires
        forall|i: int| 0 <= i < entries.len() ==> triple_clean(#[trigger] entries[i]),
    ensures
        parse_jar_of(render_jar_of(entries)) == Some(entries),
    decreases entries.len(),
{
    if entries.len() == 0 {
        assert(entries =~= Seq::<(Seq<char>, Seq<char>, Seq<char>)>::empty());
    } else {
        let x = entries.first();
        let rest = entries.drop_first();
        let line = line_of(x);
        let ll = line.len() as int;
        let t = render_jar_of(entries);
        lemma_line_shape(x);
        assert(t == (line + seq!['\n']) + render_jar_of(rest));
        assert(t[ll] == '\n');
        assert forall|j: int| 0 <= j < ll implies #[trigger] t[j] != '\n' by {
            assert(t[j] == line[j]);
        }
        lemma_index_of_first_is(t, '\n', ll);
        assert(t.subrange(0, ll) =~= line);
        lemma_split_rendered_line(x);
        assert(t.subrange(ll + 1, t.len() as int) =~= render_jar_of(rest));
        assert forall|i: int| 0 <= i < rest.len() implies triple_clean(#[trigger] rest[i]) by {
            assert(rest[i] == entries[i + 1]);
        }
        lemma_snapshot_round_trip(rest);
        assert(seq![x] + rest =~= entries);
    }
}

/// Round trip for a whole jar value: parsing its rendered snapshot
/// recovers the very names, values and attributes it holds.
pub proof fn lemma_jar_round_trip(jar: CookieJar)
    requires
        jar.wf(),
    ensures
        parse_jar_of(render_jar_of(jar.view_entries())) == Some(jar.view_entries()),
{
    let vs = jar.view_entries();
    assert forall|i: int| 0 <= i < vs.len() implies triple_clean(#[trigger] vs[i]) by {
        assert(vs[i] == entry_view(jar.entries@[i]));
        assert(jar.entries@[i].wf());
    }
    lemma_snapshot_round_trip(vs);
}

} // verus!
