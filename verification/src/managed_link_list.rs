//! The registry of managed links: an ordered collection that assigns
//! monotonically increasing identifiers and persists as one JSON document.

use vstd::prelude::*;
use vstd::string::StringExecFns;
use crate::json::{
    lemma_concat_assoc, lemma_skip_of_concat, lemma_skip_skip, lemma_sp_lit_of_concat, p_lit,
    parse_chars, sp_lit,
};
use crate::managed_link::{
    enc_link, lemma_enc_link_head, lemma_sp_link_enc, parse_link_at, sp_link, LinkView,
    ManagedLink,
};
use crate::text::lemma_dec_chars_digits;

verus! {

pub struct ManagedLinkList {
    pub managed_links: Vec<ManagedLink>,
}

/// The mathematical values of a sequence of link records.
pub open spec fn views_of(ls: Seq<ManagedLink>) -> Seq<LinkView> {
    ls.map_values(|m: ManagedLink| m@)
}

impl View for ManagedLinkList {
    type V = Seq<LinkView>;

    open spec fn view(&self) -> Seq<LinkView> {
        views_of(self.managed_links@)
    }
}

/// The greatest identifier in the registry, or zero when it is empty.
pub open spec fn spec_last_id(vs: Seq<LinkView>) -> nat
    decreases vs.len(),
{
    if vs.len() == 0 {
        0
    } else if spec_last_id(vs.drop_last()) >= vs.last().id as nat {
        spec_last_id(vs.drop_last())
    } else {
        vs.last().id as nat
    }
}

/// The identifier the next appended record receives.
pub open spec fn spec_next_id(vs: Seq<LinkView>) -> nat {
    spec_last_id(vs) + 1
}

/// No identifier occurs twice in the registry.
pub open spec fn ids_unique(vs: Seq<LinkView>) -> bool {
    forall|i: int, j: int| 0 <= i < j < vs.len() ==> vs[i].id != vs[j].id
}

/// The greatest identifier bounds every identifier, and is attained by one.
pub proof fn lemma_last_id_is_max(vs: Seq<LinkView>)
    requires
        vs.len() > 0,
    ensures
        forall|i: int| 0 <= i < vs.len() ==> (#[trigger] vs[i].id) as nat <= spec_last_id(vs),
        exists|i: int| 0 <= i < vs.len() && (#[trigger] vs[i].id) as nat == spec_last_id(vs),
    decreases vs.len(),
{
    if vs.len() == 1 {
        assert(vs.drop_last().len() == 0);
        assert(vs[0] == vs.last());
    } else {
        lemma_last_id_is_max(vs.drop_last());
        assert forall|i: int| 0 <= i < vs.len() implies (#[trigger] vs[i].id) as nat
            <= spec_last_id(vs) by {
            if i < vs.len() - 1 {
                assert(vs[i] == vs.drop_last()[i]);
            }
        }
        if spec_last_id(vs.drop_last()) >= vs.last().id as nat {
            let w = choose|i: int|
                0 <= i < vs.drop_last().len() && (#[trigger] vs.drop_last()[i].id) as nat
                    == spec_last_id(vs.drop_last());
            assert(vs[w] == vs.drop_last()[w]);
            assert((vs[w].id) as nat == spec_last_id(vs));
        } else {
            assert((vs[vs.len() - 1].id) as nat == spec_last_id(vs));
        }
    }
}

/// The law of identifier assignment: one for an empty registry, and one more
/// than the greatest existing identifier otherwise.
pub proof fn lemma_next_id(vs: Seq<LinkView>)
    ensures
        vs.len() == 0 ==> spec_next_id(vs) == 1,
        vs.len() > 0 ==> (forall|i: int|
            0 <= i < vs.len() ==> ((#[trigger] vs[i].id) as nat) < spec_next_id(vs)),
        vs.len() > 0 ==> (exists|i: int|
            0 <= i < vs.len() && (#[trigger] vs[i].id) as nat + 1 == spec_next_id(vs)),
{
    if vs.len() > 0 {
        lemma_last_id_is_max(vs);
    }
}

/// Appending a record whose identifier exceeds every existing one keeps the
/// identifiers unique.
pub proof fn lemma_push_fresh_id(vs: Seq<LinkView>, v: LinkView)
    requires
        ids_unique(vs),
        v.id as nat > spec_last_id(vs),
    ensures
        ids_unique(vs.push(v)),
        spec_last_id(vs.push(v)) == v.id as nat,
{
    if vs.len() > 0 {
        lemma_last_id_is_max(vs);
    }
    let ws = vs.push(v);
    assert forall|i: int, j: int| 0 <= i < j < ws.len() implies ws[i].id != ws[j].id by {
        if j < ws.len() - 1 {
            assert(ws[i] == vs[i] && ws[j] == vs[j]);
        } else {
            assert(ws[i] == vs[i] && ws[j] == v);
        }
    }
    assert(ws.drop_last() =~= vs);
}

impl ManagedLinkList {
    /// The greatest identifier among the registered links, or zero when the
    /// registry is empty.
    pub fn get_last_id(&self) -> (r: u32)
        ensures
            r as nat == spec_last_id(self@),
    {
        let mut r: u32 = 0;
        let mut i: usize = 0;
        while i < self.managed_links.len()
            invariant
                i <= self.managed_links@.len(),
                r as nat == spec_last_id(self@.take(i as int)),
            decreases self.managed_links@.len() - i,
        {
            let id = self.managed_links[i].id;
            proof {
                assert(self@.take(i + 1).drop_last() =~= self@.take(i as int));
                assert(self@.take(i + 1).last() == self@[i as int]);
                assert(self@[i as int].id == id);
            }
            if id > r {
                r = id;
            }
            i = i + 1;
        }
        proof {
            assert(self@.take(self.managed_links@.len() as int) =~= self@);
        }
        r
    }
}

impl Default for ManagedLinkList {
    /// An empty registry.
    fn default() -> (r: ManagedLinkList)
        ensures
            r@ == Seq::<LinkView>::empty(),
    {
        let r = ManagedLinkList { managed_links: Vec::new() };
        proof {
            assert(r@ =~= Seq::<LinkView>::empty());
        }
        r
    }
}

// ---------------------------------------------------------------------------
// Serialized form
// ---------------------------------------------------------------------------

/// The items after the first one, each preceded by a comma, then the closing
/// bracket and brace.
pub open spec fn enc_rest(vs: Seq<LinkView>) -> Seq<char>
    decreases vs.len(),
{
    if vs.len() == 0 {
        "]}"@
    } else {
        seq![','] + enc_link(vs[0]) + enc_rest(vs.drop_first())
    }
}

/// The item list with its closing delimiters.
pub open spec fn enc_items(vs: Seq<LinkView>) -> Seq<char> {
    if vs.len() == 0 {
        "]}"@
    } else {
        enc_link(vs[0]) + enc_rest(vs.drop_first())
    }
}

/// The serialized form of the whole registry.
pub open spec fn enc_list(vs: Seq<LinkView>) -> Seq<char> {
    "{\"managed_links\":["@ + enc_items(vs)
}

/// Parses the remaining items after one item has been read: either the
/// closing delimiters, or a comma followed by an item and more of the same.
/// The bound on the consumed count only justifies the recursion; a
/// successful sub-parse always consumes between one character and the whole
/// remainder, so it excludes nothing.
pub open spec fn sp_links_tail(s: Seq<char>) -> Option<(Seq<LinkView>, int)>
    decreases s.len(),
{
    match sp_lit(s, "]}"@) {
        Some(k) => Some((Seq::empty(), k)),
        None => match sp_lit(s, ","@) {
            None => None,
            Some(k1) => match sp_link(s.skip(k1)) {
                None => None,
                Some(vk) => {
                    let k2 = k1 + vk.1;
                    if 1 <= k2 <= s.len() {
                        match sp_links_tail(s.skip(k2)) {
                            None => None,
                            Some(tk) => Some((seq![vk.0] + tk.0, k2 + tk.1)),
                        }
                    } else {
                        None
                    }
                },
            },
        },
    }
}

/// Parses a whole registry document at the head of `s`.
pub open spec fn sp_list(s: Seq<char>) -> Option<(Seq<LinkView>, int)> {
    match sp_lit(s, "{\"managed_links\":["@) {
        None => None,
        Some(k0) => match sp_lit(s.skip(k0), "]}"@) {
            Some(k) => Some((Seq::empty(), k0 + k)),
            None => match sp_link(s.skip(k0)) {
                None => None,
                Some(vk) => {
                    let k1 = k0 + vk.1;
                    if 1 <= k1 <= s.len() {
                        match sp_links_tail(s.skip(k1)) {
                            None => None,
                            Some(tk) => Some((seq![vk.0] + tk.0, k1 + tk.1)),
                        }
                    } else {
                        None
                    }
                },
            },
        },
    }
}

/// A registry document is valid exactly when the whole text parses.
pub open spec fn sp_list_complete(s: Seq<char>) -> Option<Seq<LinkView>> {
    match sp_list(s) {
        Some(vk) => if vk.1 == s.len() {
            Some(vk.0)
        } else {
            None
        },
        None => None,
    }
}


/// Parsing the encoded remainder of a registry, followed by anything, yields
/// exactly the encoded records.
#[verifier::rlimit(100)]
#[verifier::spinoff_prover]
pub proof fn lemma_sp_links_tail_enc(vs: Seq<LinkView>, rest: Seq<char>)
    ensures
        sp_links_tail(enc_rest(vs) + rest) == Some::<(Seq<LinkView>, int)>(
            (vs, enc_rest(vs).len() as int),
        ),
    decreases vs.len(),
{
    reveal_strlit("]}");
    reveal_strlit(",");
    if vs.len() == 0 {
        lemma_sp_lit_of_concat("]}"@, rest);
        assert(vs =~= Seq::<LinkView>::empty());
    } else {
        let v0 = vs[0];
        let vs1 = vs.drop_first();
        let c = seq![','];
        let e = enc_link(v0);
        let r1 = enc_rest(vs1);
        let s = enc_rest(vs) + rest;
        assert(enc_rest(vs) == (c + e) + r1);
        let w2 = r1 + rest;
        let w1 = e + w2;
        lemma_concat_assoc(c + e, r1, rest);
        lemma_concat_assoc(c, e, w2);
        assert(s == c + w1);
        lemma_dec_chars_digits(v0.id as nat);
        assert(e.len() >= 1);
        assert(","@ =~= c);
        assert(s[0] == ',');
        assert("]}"@[0] == ']');
        assert(s.len() >= 2);
        assert(s.take(2)[0] == s[0]);
        assert(sp_lit(s, "]}"@) is None);
        lemma_sp_lit_of_concat(","@, w1);
        lemma_skip_of_concat(","@, w1);
        assert(s.skip(1) == w1);
        lemma_sp_link_enc(v0, w2);
        lemma_skip_of_concat(e, w2);
        lemma_skip_skip(s, 1, e.len() as int);
        assert(s.skip(1 + e.len() as int) == w2);
        lemma_sp_links_tail_enc(vs1, rest);
        assert(seq![v0] + vs1 =~= vs);
    }
}

/// Parsing the encoding of an empty registry consumes the whole encoding.
#[verifier::rlimit(100)]
#[verifier::spinoff_prover]
proof fn lemma_sp_list_enc_empty(rest: Seq<char>)
    ensures
        sp_list(enc_list(Seq::<LinkView>::empty()) + rest) == Some::<(Seq<LinkView>, int)>(
            (Seq::empty(), enc_list(Seq::<LinkView>::empty()).len() as int),
        ),
{
    let h = "{\"managed_links\":["@;
    let vs = Seq::<LinkView>::empty();
    let s = enc_list(vs) + rest;
    let w = "]}"@ + rest;
    lemma_concat_assoc(h, "]}"@, rest);
    assert(s == h + w);
    lemma_sp_lit_of_concat(h, w);
    lemma_skip_of_concat(h, w);
    lemma_sp_lit_of_concat("]}"@, rest);
}

/// Parsing the encoding of a non-empty registry consumes the whole encoding.
#[verifier::rlimit(100)]
#[verifier::spinoff_prover]
proof fn lemma_sp_list_enc_nonempty(vs: Seq<LinkView>, rest: Seq<char>)
    requires
        vs.len() > 0,
    ensures
        sp_list(enc_list(vs) + rest) == Some::<(Seq<LinkView>, int)>(
            (vs, enc_list(vs).len() as int),
        ),
{
    let h = "{\"managed_links\":["@;
    let s = enc_list(vs) + rest;
    let v0 = vs[0];
    let vs1 = vs.drop_first();
    let e = enc_link(v0);
    let r1 = enc_rest(vs1);
    assert(enc_items(vs) == e + r1);
    let w2 = r1 + rest;
    let w1 = e + w2;
    lemma_concat_assoc(h, e + r1, rest);
    lemma_concat_assoc(e, r1, rest);
    assert(s == h + w1);
    lemma_sp_lit_of_concat(h, w1);
    lemma_skip_of_concat(h, w1);
    assert(s.skip(h.len() as int) == w1);
    lemma_enc_link_head(v0);
    assert(w1[0] == e[0]);
    reveal_strlit("]}");
    assert("]}"@[0] == ']');
    assert(w1.take(2)[0] == w1[0]);
    assert(sp_lit(w1, "]}"@) is None);
    lemma_sp_link_enc(v0, w2);
    lemma_skip_of_concat(e, w2);
    lemma_skip_skip(s, h.len() as int, e.len() as int);
    assert(s.skip(h.len() as int + e.len() as int) == w2);
    lemma_sp_links_tail_enc(vs1, rest);
    assert(seq![v0] + vs1 =~= vs);
}

/// Parsing the encoding of a registry, followed by anything, yields that
/// registry and consumes exactly the encoding.
pub proof fn lemma_sp_list_enc(vs: Seq<LinkView>, rest: Seq<char>)
    ensures
        sp_list(enc_list(vs) + rest) == Some::<(Seq<LinkView>, int)>(
            (vs, enc_list(vs).len() as int),
        ),
{
    if vs.len() == 0 {
        assert(vs =~= Seq::<LinkView>::empty());
        lemma_sp_list_enc_empty(rest);
    } else {
        lemma_sp_list_enc_nonempty(vs, rest);
    }
}

impl ManagedLinkList {
    /// The serialized form of the whole registry.
    pub fn encode(&self) -> (r: String)
        ensures
            r@ == enc_list(self@),
    {
        let mut out = String::new();
        out.append("{\"managed_links\":[");
        let n = self.managed_links.len();
        let mut i: usize = 0;
        while i < n
            invariant
                n == self.managed_links@.len(),
                i <= n,
                i == 0 ==> out@ == "{\"managed_links\":["@,
                i >= 1 ==> out@ + enc_rest(self@.skip(i as int)) == enc_list(self@),
            decreases n - i,
        {
            let ghost before = out@;
            if i > 0 {
                out.append(",");
            }
            let piece = self.managed_links[i].encode();
            out.append(piece.as_str());
            proof {
                let vs = self@;
                assert(vs[i as int] == self.managed_links@[i as int]@);
                if i == 0 {
                    assert(vs.skip(0) =~= vs);
                    assert(vs.skip(0)[0] == vs[0]);
                    assert(vs.drop_first() =~= vs.skip(1));
                    assert(enc_list(vs) == "{\"managed_links\":["@ + (enc_link(vs[0]) + enc_rest(
                        vs.drop_first(),
                    )));
                    assert(out@ + enc_rest(vs.skip(1)) =~= enc_list(vs));
                } else {
                    reveal_strlit(",");
                    assert(","@ =~= seq![',']);
                    assert(vs.skip(i as int)[0] == vs[i as int]);
                    assert(vs.skip(i as int).drop_first() =~= vs.skip(i + 1));
                    assert(enc_rest(vs.skip(i as int)) == seq![','] + enc_link(vs[i as int])
                        + enc_rest(vs.skip(i + 1)));
                    assert(out@ =~= before + (seq![','] + enc_link(vs[i as int])));
                    assert(out@ + enc_rest(vs.skip(i + 1)) =~= before + enc_rest(vs.skip(i as int)));
                }
            }
            i = i + 1;
        }
        out.append("]}");
        proof {
            let vs = self@;
            if n == 0 {
                assert(vs.len() == 0);
                assert(out@ =~= enc_list(vs));
            } else {
                assert(vs.skip(n as int) =~= Seq::<LinkView>::empty());
                assert(enc_rest(vs.skip(n as int)) == "]}"@);
                assert(out@ =~= enc_list(vs));
            }
        }
        out
    }

    /// Parses a registry document; the whole text must be one valid document.
    pub fn parse(s: &str) -> (r: Option<ManagedLinkList>)
        ensures
            match r {
                Some(list) => sp_list_complete(s@) == Some(list@),
                None => sp_list_complete(s@) is None,
            },
    {
        let cs = parse_chars(s);
        proof {
            assert(cs@.skip(0) =~= cs@);
        }
        let p0 = match p_lit(&cs, 0, "{\"managed_links\":[") {
            Some(p) => p,
            None => {
                return None;
            },
        };
        match p_lit(&cs, p0, "]}") {
            Some(p) => {
                if p == cs.len() {
                    let list = ManagedLinkList { managed_links: Vec::new() };
                    proof {
                        assert(list@ =~= Seq::<LinkView>::empty());
                    }
                    return Some(list);
                } else {
                    return None;
                }
            },
            None => {},
        }
        let (l0, pos1) = match parse_link_at(&cs, p0) {
            Some(v) => v,
            None => {
                return None;
            },
        };
        let mut links: Vec<ManagedLink> = Vec::new();
        links.push(l0);
        let mut pos = pos1;
        proof {
            assert(views_of(links@) =~= seq![l0@]);
        }
        loop
            invariant
                pos <= cs@.len(),
                cs@ == s@,
                links@.len() >= 1,
                (match sp_links_tail(cs@.skip(pos as int)) {
                    Some(tk) => sp_list(cs@) == Some((views_of(links@) + tk.0, pos + tk.1)),
                    None => sp_list(cs@) is None,
                }),
            decreases cs@.len() - pos,
        {
            match p_lit(&cs, pos, "]}") {
                Some(p) => {
                    proof {
                        assert(views_of(links@) + Seq::<LinkView>::empty() =~= views_of(links@));
                    }
                    if p == cs.len() {
                        let list = ManagedLinkList { managed_links: links };
                        return Some(list);
                    } else {
                        return None;
                    }
                },
                None => {},
            }
            let p1 = match p_lit(&cs, pos, ",") {
                Some(p) => p,
                None => {
                    return None;
                },
            };
            proof {
                lemma_skip_skip(cs@, pos as int, (p1 - pos) as int);
            }
            let (l, p2) = match parse_link_at(&cs, p1) {
                Some(v) => v,
                None => {
                    return None;
                },
            };
            let ghost old_links = links@;
            links.push(l);
            proof {
                reveal_strlit(",");
                lemma_skip_skip(cs@, pos as int, (p2 - pos) as int);
                assert(views_of(old_links.push(l)) =~= views_of(old_links) + seq![l@]);
                match sp_links_tail(cs@.skip(p2 as int)) {
                    Some(tk2) => {
                        assert(views_of(old_links) + (seq![l@] + tk2.0) =~= views_of(links@)
                            + tk2.0);
                    },
                    None => {},
                }
            }
            pos = p2;
        }
    }
}



impl crate::store::StoreRecord for ManagedLinkList {
    /// A fresh registry is empty.
    open spec fn spec_default() -> Seq<LinkView> {
        Seq::empty()
    }

    open spec fn spec_encode(v: Seq<LinkView>) -> Seq<char> {
        enc_list(v)
    }

    open spec fn spec_parse(s: Seq<char>) -> Option<Seq<LinkView>> {
        sp_list_complete(s)
    }

    proof fn lemma_parse_encode(v: Seq<LinkView>) {
        lemma_sp_list_enc(v, Seq::empty());
        assert(enc_list(v) + Seq::<char>::empty() =~= enc_list(v));
    }

    fn default_record() -> (r: ManagedLinkList) {
        let r = ManagedLinkList { managed_links: Vec::new() };
        proof {
            assert(r@ =~= Seq::<LinkView>::empty());
        }
        r
    }

    fn encode_record(&self) -> (r: String) {
        self.encode()
    }

    fn parse_record(s: &str) -> (r: Option<ManagedLinkList>) {
        ManagedLinkList::parse(s)
    }
}

impl ManagedLinkList {
    /// Loads the registry from the contents of its backing file (`None`: the
    /// file is absent): absent yields the empty default and the text to
    /// create the file with; corrupt contents are reported, not replaced.
    pub fn load(contents: Option<&str>) -> (r: crate::store::LoadOutcome<ManagedLinkList>)
        ensures
            contents is None ==> (r matches crate::store::LoadOutcome::Created { value, file_text }
                && value@ == Seq::<LinkView>::empty() && file_text@ == enc_list(Seq::empty())),
            contents matches Some(s) ==> match sp_list_complete(s@) {
                Some(v) => r matches crate::store::LoadOutcome::Loaded { value } && value@ == v,
                None => r is Invalid,
            },
    {
        crate::store::load_record::<ManagedLinkList>(contents)
    }

    /// The text that saving the registry overwrites its backing file with.
    pub fn save(&self) -> (r: String)
        ensures
            r@ == enc_list(self@),
    {
        crate::store::save_record::<ManagedLinkList>(self)
    }
}


} // verus!
