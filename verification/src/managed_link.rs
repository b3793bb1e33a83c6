//! One symlink registration: the original directory, the derived symlink
//! location, and the timestamps captured when the record was created.

use vstd::prelude::*;
use vstd::string::StringExecFns;
use crate::json::{
    enc_string_chars, lemma_concat_assoc, lemma_skip_of_concat, lemma_skip_skip, lemma_sp_key_string_enc,
    lemma_sp_lit_of_concat, lemma_sp_number_dec, p_key_string, p_lit, p_number_u32,
    push_json_string, sp_key_string, sp_lit, sp_number,
};
use crate::text::{dec_chars, is_digit_char, lemma_dec_chars_digits, push_decimal};

verus! {

pub struct ManagedLink {
    pub id: u32,
    pub original_path: String,
    pub symlink_path: String,
    pub creation_date: String,
    pub last_modified: String,
}

/// The mathematical value of a link record.
pub ghost struct LinkView {
    pub id: u32,
    pub original_path: Seq<char>,
    pub symlink_path: Seq<char>,
    pub creation_date: Seq<char>,
    pub last_modified: Seq<char>,
}

impl View for ManagedLink {
    type V = LinkView;

    open spec fn view(&self) -> LinkView {
        LinkView {
            id: self.id,
            original_path: self.original_path@,
            symlink_path: self.symlink_path@,
            creation_date: self.creation_date@,
            last_modified: self.last_modified@,
        }
    }
}

/// The serialized form of one link record.
pub open spec fn enc_link(v: LinkView) -> Seq<char> {
    "{\"id\":"@ + dec_chars(v.id as nat) + ",\"original_path\":"@ + enc_string_chars(
        v.original_path,
    ) + ",\"symlink_path\":"@ + enc_string_chars(v.symlink_path) + ",\"creation_date\":"@
        + enc_string_chars(v.creation_date) + ",\"last_modified\":"@ + enc_string_chars(
        v.last_modified,
    ) + "}"@
}

/// Parses one link record at the head of `s`.
pub open spec fn sp_link(s: Seq<char>) -> Option<(LinkView, int)> {
    match sp_lit(s, "{\"id\":"@) {
        None => None,
        Some(k1) => match sp_number(s.skip(k1)) {
            None => None,
            Some(nk) => if nk.0 > u32::MAX {
                None
            } else {
                let p1 = k1 + nk.1;
                match sp_key_string(s.skip(p1), ",\"original_path\":"@) {
                    None => None,
                    Some(vk1) => {
                        let p2 = p1 + vk1.1;
                        match sp_key_string(s.skip(p2), ",\"symlink_path\":"@) {
                            None => None,
                            Some(vk2) => {
                                let p3 = p2 + vk2.1;
                                match sp_key_string(s.skip(p3), ",\"creation_date\":"@) {
                                    None => None,
                                    Some(vk3) => {
                                        let p4 = p3 + vk3.1;
                                        match sp_key_string(s.skip(p4), ",\"last_modified\":"@) {
                                            None => None,
                                            Some(vk4) => {
                                                let p5 = p4 + vk4.1;
                                                match sp_lit(s.skip(p5), "}"@) {
                                                    None => None,
                                                    Some(k6) => Some(
                                                        (
                                                            LinkView {
                                                                id: nk.0 as u32,
                                                                original_path: vk1.0,
                                                                symlink_path: vk2.0,
                                                                creation_date: vk3.0,
                                                                last_modified: vk4.0,
                                                            },
                                                            p5 + k6,
                                                        ),
                                                    ),
                                                }
                                            },
                                        }
                                    },
                                }
                            },
                        }
                    },
                }
            },
        },
    }
}

/// Parsing the encoding of a link, followed by anything, yields that link
/// and consumes exactly the encoding.
#[verifier::rlimit(100)]
#[verifier::spinoff_prover]
pub proof fn lemma_sp_link_enc(v: LinkView, rest: Seq<char>)
    ensures
        sp_link(enc_link(v) + rest) == Some::<(LinkView, int)>((v, enc_link(v).len() as int)),
{
    let a1 = "{\"id\":"@;
    let a2 = dec_chars(v.id as nat);
    let a3 = ",\"original_path\":"@;
    let e3 = enc_string_chars(v.original_path);
    let a4 = ",\"symlink_path\":"@;
    let e4 = enc_string_chars(v.symlink_path);
    let a5 = ",\"creation_date\":"@;
    let e5 = enc_string_chars(v.creation_date);
    let a6 = ",\"last_modified\":"@;
    let e6 = enc_string_chars(v.last_modified);
    let a7 = "}"@;
    let s = enc_link(v) + rest;

    // Right-associated suffixes of the encoding.
    let u6 = a7 + rest;
    let u5 = (a6 + e6) + u6;
    let u4 = (a5 + e5) + u5;
    let u3 = (a4 + e4) + u4;
    let u2 = (a3 + e3) + u3;
    let u1 = a2 + u2;

    // The left-associated chain that `enc_link` denotes.
    let x2 = a1 + a2;
    let x3 = x2 + a3;
    let x4 = x3 + e3;
    let x5 = x4 + a4;
    let x6 = x5 + e4;
    let x7 = x6 + a5;
    let x8 = x7 + e5;
    let x9 = x8 + a6;
    let x10 = x9 + e6;
    let x11 = x10 + a7;
    assert(enc_link(v) == x11);

    // Rotate the chain so that each parsing lemma applies syntactically.
    lemma_concat_assoc(x10, a7, rest);
    lemma_concat_assoc(x9, e6, u6);
    lemma_concat_assoc(x8, a6, e6 + u6);
    lemma_concat_assoc(a6, e6, u6);
    assert(s == x8 + u5);
    lemma_concat_assoc(x7, e5, u5);
    lemma_concat_assoc(x6, a5, e5 + u5);
    lemma_concat_assoc(a5, e5, u5);
    assert(s == x6 + u4);
    lemma_concat_assoc(x5, e4, u4);
    lemma_concat_assoc(x4, a4, e4 + u4);
    lemma_concat_assoc(a4, e4, u4);
    assert(s == x4 + u3);
    lemma_concat_assoc(x3, e3, u3);
    lemma_concat_assoc(x2, a3, e3 + u3);
    lemma_concat_assoc(a3, e3, u3);
    assert(s == x2 + u2);
    lemma_concat_assoc(a1, a2, u2);
    assert(s == a1 + u1);

    // Walk the grammar down the suffixes.
    lemma_sp_lit_of_concat(a1, u1);
    lemma_skip_of_concat(a1, u1);
    assert(s.skip(a1.len() as int) == u1);

    reveal_strlit(",\"original_path\":");
    assert(u2[0] == a3[0]);
    assert(!is_digit_char(u2[0]));
    lemma_sp_number_dec(v.id as nat, u2);
    lemma_skip_of_concat(a2, u2);
    let p1 = a1.len() as int + a2.len() as int;
    lemma_skip_skip(s, a1.len() as int, a2.len() as int);
    assert(s.skip(p1) == u2);

    lemma_sp_key_string_enc(a3, v.original_path, u3);
    lemma_skip_of_concat(a3 + e3, u3);
    let p2 = p1 + a3.len() as int + e3.len() as int;
    lemma_skip_skip(s, p1, a3.len() as int + e3.len() as int);
    assert(s.skip(p2) == u3);

    lemma_sp_key_string_enc(a4, v.symlink_path, u4);
    lemma_skip_of_concat(a4 + e4, u4);
    let p3 = p2 + a4.len() as int + e4.len() as int;
    lemma_skip_skip(s, p2, a4.len() as int + e4.len() as int);
    assert(s.skip(p3) == u4);

    lemma_sp_key_string_enc(a5, v.creation_date, u5);
    lemma_skip_of_concat(a5 + e5, u5);
    let p4 = p3 + a5.len() as int + e5.len() as int;
    lemma_skip_skip(s, p3, a5.len() as int + e5.len() as int);
    assert(s.skip(p4) == u5);

    lemma_sp_key_string_enc(a6, v.last_modified, u6);
    lemma_skip_of_concat(a6 + e6, u6);
    let p5 = p4 + a6.len() as int + e6.len() as int;
    lemma_skip_skip(s, p4, a6.len() as int + e6.len() as int);
    assert(s.skip(p5) == u6);

    lemma_sp_lit_of_concat(a7, rest);
    assert(enc_link(v).len() == p5 + a7.len());
}

/// The encoding of a link is at least two characters long and starts with a
/// brace; the registry parser uses this to tell an item from a closing
/// delimiter.
pub proof fn lemma_enc_link_head(v: LinkView)
    ensures
        enc_link(v).len() >= 2,
        enc_link(v)[0] == '{',
{
    reveal_strlit("{\"id\":");
    lemma_dec_chars_digits(v.id as nat);
    assert(enc_link(v)[0] == "{\"id\":"@[0]);
}

impl ManagedLink {
    /// The serialized form of this record.
    pub fn encode(&self) -> (r: String)
        ensures
            r@ == enc_link(self@),
    {
        let mut out = String::new();
        out.append("{\"id\":");
        push_decimal(&mut out, self.id as u64);
        out.append(",\"original_path\":");
        push_json_string(&mut out, self.original_path.as_str());
        out.append(",\"symlink_path\":");
        push_json_string(&mut out, self.symlink_path.as_str());
        out.append(",\"creation_date\":");
        push_json_string(&mut out, self.creation_date.as_str());
        out.append(",\"last_modified\":");
        push_json_string(&mut out, self.last_modified.as_str());
        out.append("}");
        proof {
            assert(out@ =~= enc_link(self@));
        }
        out
    }
}

/// Parses one link record starting at `pos`.
pub fn parse_link_at(cs: &Vec<char>, pos: usize) -> (r: Option<(ManagedLink, usize)>)
    requires
        pos <= cs@.len(),
    ensures
        match r {
            Some(vp) => {
                &&& sp_link(cs@.skip(pos as int)) == Some((vp.0@, (vp.1 - pos) as int))
                &&& pos < vp.1 <= cs@.len()
            },
            None => sp_link(cs@.skip(pos as int)) is None,
        },
{
    let p1 = match p_lit(cs, pos, "{\"id\":") {
        Some(p) => p,
        None => {
            return None;
        },
    };
    proof {
        lemma_skip_skip(cs@, pos as int, (p1 - pos) as int);
    }
    let (id, p2) = match p_number_u32(cs, p1) {
        Some(v) => v,
        None => {
            return None;
        },
    };
    proof {
        lemma_skip_skip(cs@, pos as int, (p2 - pos) as int);
    }
    let (op, p3) = match p_key_string(cs, p2, ",\"original_path\":") {
        Some(v) => v,
        None => {
            return None;
        },
    };
    proof {
        lemma_skip_skip(cs@, pos as int, (p3 - pos) as int);
    }
    let (slp, p4) = match p_key_string(cs, p3, ",\"symlink_path\":") {
        Some(v) => v,
        None => {
            return None;
        },
    };
    proof {
        lemma_skip_skip(cs@, pos as int, (p4 - pos) as int);
    }
    let (cd, p5) = match p_key_string(cs, p4, ",\"creation_date\":") {
        Some(v) => v,
        None => {
            return None;
        },
    };
    proof {
        lemma_skip_skip(cs@, pos as int, (p5 - pos) as int);
    }
    let (lm, p6) = match p_key_string(cs, p5, ",\"last_modified\":") {
        Some(v) => v,
        None => {
            return None;
        },
    };
    proof {
        lemma_skip_skip(cs@, pos as int, (p6 - pos) as int);
    }
    let p7 = match p_lit(cs, p6, "}") {
        Some(p) => p,
        None => {
            return None;
        },
    };
    let link = ManagedLink {
        id,
        original_path: op,
        symlink_path: slp,
        creation_date: cd,
        last_modified: lm,
    };
    Some((link, p7))
}

/// The operator-facing rendering of a link record, one field per line.
pub open spec fn render_link(v: LinkView) -> Seq<char> {
    "Id: "@ + dec_chars(v.id as nat) + "\nOriginal path: "@ + v.original_path
        + "\nSymlink path: "@ + v.symlink_path + "\nCreation date: "@ + v.creation_date
        + "\nLast modified: "@ + v.last_modified
}

impl ManagedLink {
    /// Renders the record for display and for the run log.
    pub fn render(&self) -> (r: String)
        ensures
            r@ == render_link(self@),
    {
        let mut out = String::new();
        out.append("Id: ");
        push_decimal(&mut out, self.id as u64);
        out.append("\nOriginal path: ");
        out.append(self.original_path.as_str());
        out.append("\nSymlink path: ");
        out.append(self.symlink_path.as_str());
        out.append("\nCreation date: ");
        out.append(self.creation_date.as_str());
        out.append("\nLast modified: ");
        out.append(self.last_modified.as_str());
        proof {
            assert(out@ =~= render_link(self@));
        }
        out
    }

    /// An exact copy of this record.
    pub fn duplicate(&self) -> (r: ManagedLink)
        ensures
            r@ == self@,
    {
        ManagedLink {
            id: self.id,
            original_path: self.original_path.clone(),
            symlink_path: self.symlink_path.clone(),
            creation_date: self.creation_date.clone(),
            last_modified: self.last_modified.clone(),
        }
    }
}

} // verus!
