//! The persisted configuration record: backup policy and the default
//! directory under which symlinks are placed.

use vstd::prelude::*;
use vstd::string::StringExecFns;
use crate::decision::Decision;
use crate::errors::SymlinkerError;
use crate::json::{
    enc_string_chars, lemma_concat_assoc, lemma_skip_of_concat, lemma_skip_skip,
    lemma_sp_key_string_enc, lemma_sp_lit_of_concat, p_bool, p_key_string, p_lit, parse_chars,
    push_json_string, sp_bool, sp_key_string, sp_lit,
};
use crate::store::{load_record, save_record, LoadOutcome, StoreRecord};

verus! {

pub struct Config {
    pub create_backup: bool,
    pub backup_dir: String,
    pub default_symlink_dir: String,
}

/// The mathematical value of a configuration record.
pub ghost struct ConfigView {
    pub create_backup: bool,
    pub backup_dir: Seq<char>,
    pub default_symlink_dir: Seq<char>,
}

impl View for Config {
    type V = ConfigView;

    open spec fn view(&self) -> ConfigView {
        ConfigView {
            create_backup: self.create_backup,
            backup_dir: self.backup_dir@,
            default_symlink_dir: self.default_symlink_dir@,
        }
    }
}

/// The hard-coded default configuration.
pub open spec fn spec_default_config() -> ConfigView {
    ConfigView {
        create_backup: true,
        backup_dir: "C:\\symlinker_backups"@,
        default_symlink_dir: "C:\\symlinks"@,
    }
}

impl Default for Config {
    /// The hard-coded default: backups on, fixed backup and symlink roots.
    fn default() -> (r: Config)
        ensures
            r@ == spec_default_config(),
    {
        Config {
            create_backup: true,
            backup_dir: String::from_str("C:\\symlinker_backups"),
            default_symlink_dir: String::from_str("C:\\symlinks"),
        }
    }
}

/// The serialized form of a boolean field.
pub open spec fn enc_bool(b: bool) -> Seq<char> {
    if b {
        "true"@
    } else {
        "false"@
    }
}

/// The serialized form of a configuration record.
pub open spec fn enc_config(v: ConfigView) -> Seq<char> {
    "{\"create_backup\":"@ + enc_bool(v.create_backup) + ",\"backup_dir\":"@ + enc_string_chars(
        v.backup_dir,
    ) + ",\"default_symlink_dir\":"@ + enc_string_chars(v.default_symlink_dir) + "}"@
}

/// Parses one configuration record at the head of `s`.
pub open spec fn sp_config(s: Seq<char>) -> Option<(ConfigView, int)> {
    match sp_lit(s, "{\"create_backup\":"@) {
        None => None,
        Some(k0) => match sp_bool(s.skip(k0)) {
            None => None,
            Some(bk) => {
                let p1 = k0 + bk.1;
                match sp_key_string(s.skip(p1), ",\"backup_dir\":"@) {
                    None => None,
                    Some(vk1) => {
                        let p2 = p1 + vk1.1;
                        match sp_key_string(s.skip(p2), ",\"default_symlink_dir\":"@) {
                            None => None,
                            Some(vk2) => {
                                let p3 = p2 + vk2.1;
                                match sp_lit(s.skip(p3), "}"@) {
                                    None => None,
                                    Some(k4) => Some(
                                        (
                                            ConfigView {
                                                create_backup: bk.0,
                                                backup_dir: vk1.0,
                                                default_symlink_dir: vk2.0,
                                            },
                                            p3 + k4,
                                        ),
                                    ),
                                }
                            },
                        }
                    },
                }
            },
        },
    }
}

/// A configuration document is valid exactly when the whole text parses.
pub open spec fn sp_config_complete(s: Seq<char>) -> Option<ConfigView> {
    match sp_config(s) {
        Some(vk) => if vk.1 == s.len() {
            Some(vk.0)
        } else {
            None
        },
        None => None,
    }
}

/// Parsing the encoding of a boolean, followed by anything, yields that
/// boolean.
pub proof fn lemma_sp_bool_enc(b: bool, rest: Seq<char>)
    ensures
        sp_bool(enc_bool(b) + rest) == Some::<(bool, int)>((b, enc_bool(b).len() as int)),
{
    reveal_strlit("true");
    reveal_strlit("false");
    if b {
        lemma_sp_lit_of_concat("true"@, rest);
    } else {
        let s = "false"@ + rest;
        assert(s[0] == 'f');
        assert("true"@[0] == 't');
        assert(s.take(4)[0] == s[0]);
        assert(sp_lit(s, "true"@) is None);
        lemma_sp_lit_of_concat("false"@, rest);
    }
}

/// Parsing the encoding of a configuration, followed by anything, yields that
/// configuration and consumes exactly the encoding.
#[verifier::rlimit(100)]
#[verifier::spinoff_prover]
pub proof fn lemma_sp_config_enc(v: ConfigView, rest: Seq<char>)
    ensures
        sp_config(enc_config(v) + rest) == Some::<(ConfigView, int)>(
            (v, enc_config(v).len() as int),
        ),
{
    let b1 = "{\"create_backup\":"@;
    let eb = enc_bool(v.create_backup);
    let b2 = ",\"backup_dir\":"@;
    let e2 = enc_string_chars(v.backup_dir);
    let b3 = ",\"default_symlink_dir\":"@;
    let e3 = enc_string_chars(v.default_symlink_dir);
    let b4 = "}"@;
    let s = enc_config(v) + rest;

    let u4 = b4 + rest;
    let u3 = (b3 + e3) + u4;
    let u2 = (b2 + e2) + u3;
    let u1 = eb + u2;

    let x2 = b1 + eb;
    let x3 = x2 + b2;
    let x4 = x3 + e2;
    let x5 = x4 + b3;
    let x6 = x5 + e3;
    let x7 = x6 + b4;
    assert(enc_config(v) == x7);

    lemma_concat_assoc(x6, b4, rest);
    lemma_concat_assoc(x5, e3, u4);
    lemma_concat_assoc(x4, b3, e3 + u4);
    lemma_concat_assoc(b3, e3, u4);
    assert(s == x4 + u3);
    lemma_concat_assoc(x3, e2, u3);
    lemma_concat_assoc(x2, b2, e2 + u3);
    lemma_concat_assoc(b2, e2, u3);
    assert(s == x2 + u2);
    lemma_concat_assoc(b1, eb, u2);
    assert(s == b1 + u1);

    lemma_sp_lit_of_concat(b1, u1);
    lemma_skip_of_concat(b1, u1);
    assert(s.skip(b1.len() as int) == u1);

    lemma_sp_bool_enc(v.create_backup, u2);
    lemma_skip_of_concat(eb, u2);
    let p1 = b1.len() as int + eb.len() as int;
    lemma_skip_skip(s, b1.len() as int, eb.len() as int);
    assert(s.skip(p1) == u2);

    lemma_sp_key_string_enc(b2, v.backup_dir, u3);
    lemma_skip_of_concat(b2 + e2, u3);
    let p2 = p1 + b2.len() as int + e2.len() as int;
    lemma_skip_skip(s, p1, b2.len() as int + e2.len() as int);
    assert(s.skip(p2) == u3);

    lemma_sp_key_string_enc(b3, v.default_symlink_dir, u4);
    lemma_skip_of_concat(b3 + e3, u4);
    let p3 = p2 + b3.len() as int + e3.len() as int;
    lemma_skip_skip(s, p2, b3.len() as int + e3.len() as int);
    assert(s.skip(p3) == u4);

    lemma_sp_lit_of_concat(b4, rest);
    assert(enc_config(v).len() == p3 + b4.len());
}

impl Config {
    /// The serialized form of this record.
    pub fn encode(&self) -> (r: String)
        ensures
            r@ == enc_config(self@),
    {
        let mut out = String::new();
        out.append("{\"create_backup\":");
        if self.create_backup {
            out.append("true");
        } else {
            out.append("false");
        }
        out.append(",\"backup_dir\":");
        push_json_string(&mut out, self.backup_dir.as_str());
        out.append(",\"default_symlink_dir\":");
        push_json_string(&mut out, self.default_symlink_dir.as_str());
        out.append("}");
        proof {
            assert(out@ =~= enc_config(self@));
        }
        out
    }

    /// Parses a configuration document; the whole text must be one valid
    /// document.
    pub fn parse(s: &str) -> (r: Option<Config>)
        ensures
            match r {
                Some(c) => sp_config_complete(s@) == Some(c@),
                None => sp_config_complete(s@) is None,
            },
    {
        let cs = parse_chars(s);
        proof {
            assert(cs@.skip(0) =~= cs@);
        }
        let p0 = match p_lit(&cs, 0, "{\"create_backup\":") {
            Some(p) => p,
            None => {
                return None;
            },
        };
        let (cb, p1) = match p_bool(&cs, p0) {
            Some(v) => v,
            None => {
                return None;
            },
        };
        proof {
            lemma_skip_skip(cs@, 0, p0 as int);
            lemma_skip_skip(cs@, 0, p1 as int);
        }
        let (bd, p2) = match p_key_string(&cs, p1, ",\"backup_dir\":") {
            Some(v) => v,
            None => {
                return None;
            },
        };
        proof {
            lemma_skip_skip(cs@, 0, p2 as int);
        }
        let (sd, p3) = match p_key_string(&cs, p2, ",\"default_symlink_dir\":") {
            Some(v) => v,
            None => {
                return None;
            },
        };
        proof {
            lemma_skip_skip(cs@, 0, p3 as int);
        }
        let p4 = match p_lit(&cs, p3, "}") {
            Some(p) => p,
            None => {
                return None;
            },
        };
        if p4 != cs.len() {
            return None;
        }
        let c = Config { create_backup: cb, backup_dir: bd, default_symlink_dir: sd };
        Some(c)
    }

    /// The directory used for new symlinks when the operator names no target.
    pub fn get_symlink_dir(&self) -> (r: &str)
        ensures
            r@ == self.default_symlink_dir@,
    {
        self.default_symlink_dir.as_str()
    }

    /// Loads the configuration from the contents of its backing file
    /// (`None`: the file is absent): absent yields the hard-coded default and
    /// the text to create the file with; corrupt contents are reported so the
    /// operator can decide, and are never replaced silently.
    pub fn load(contents: Option<&str>) -> (r: LoadOutcome<Config>)
        ensures
            contents is None ==> (r matches LoadOutcome::Created { value, file_text }
                && value@ == spec_default_config() && file_text@ == enc_config(
                spec_default_config(),
            )),
            contents matches Some(s) ==> match sp_config_complete(s@) {
                Some(v) => r matches LoadOutcome::Loaded { value } && value@ == v,
                None => r is Invalid,
            },
    {
        load_record::<Config>(contents)
    }

    /// Resolves a corrupt configuration file by the operator's decision:
    /// accepting regenerates and persists the default, declining is a fatal
    /// configuration error.
    pub fn resolve_corrupt(d: Decision) -> (r: Result<(Config, String), SymlinkerError>)
        ensures
            d == Decision::Yes ==> (r matches Ok(p) && p.0@ == spec_default_config() && p.1@
                == enc_config(spec_default_config())),
            d == Decision::No ==> (r matches Err(e) && e == SymlinkerError::Config),
    {
        match d {
            Decision::Yes => {
                let c = Config::default();
                let text = c.encode();
                Ok((c, text))
            },
            Decision::No => Err(SymlinkerError::Config),
        }
    }

    /// The text that saving the configuration overwrites its backing file
    /// with.
    pub fn save(&self) -> (r: String)
        ensures
            r@ == enc_config(self@),
    {
        save_record::<Config>(self)
    }
}

impl StoreRecord for Config {
    /// A fresh store starts from the hard-coded default configuration.
    open spec fn spec_default() -> ConfigView {
        spec_default_config()
    }

    open spec fn spec_encode(v: ConfigView) -> Seq<char> {
        enc_config(v)
    }

    open spec fn spec_parse(s: Seq<char>) -> Option<ConfigView> {
        sp_config_complete(s)
    }

    proof fn lemma_parse_encode(v: ConfigView) {
        lemma_sp_config_enc(v, Seq::empty());
        assert(enc_config(v) + Seq::<char>::empty() =~= enc_config(v));
    }

    fn default_record() -> (r: Config) {
        Config::default()
    }

    fn encode_record(&self) -> (r: String) {
        self.encode()
    }

    fn parse_record(s: &str) -> (r: Option<Config>) {
        Config::parse(s)
    }
}

} // verus!
