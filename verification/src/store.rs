//! The typed file store: load-or-initialize and save of serializable records,
//! and the run-log content rules.
//!
//! The store itself performs no input or output.  A caller reads the backing
//! file (or finds it absent) and hands the contents in; the store decides
//! what the record value is and which text, if any, must be written back.

use vstd::prelude::*;
use vstd::string::StringExecFns;

verus! {

/// The two role-scoped storage roots.
#[derive(PartialEq, Eq, Structural, Clone, Copy, Debug)]
pub enum StoreRole {
    Config,
    Data,
}

/// A record type the store can persist: it has a default value, a serialized
/// form, and a parser that accepts exactly the valid serializations.
pub trait StoreRecord: View + Sized {
    /// The value a fresh store starts from.
    spec fn spec_default() -> Self::V;

    /// The serialized form of a record value.
    spec fn spec_encode(v: Self::V) -> Seq<char>;

    /// Which record value a stored text denotes, if any.
    spec fn spec_parse(s: Seq<char>) -> Option<Self::V>;

    /// Round trip: a serialized record parses back to itself.
    proof fn lemma_parse_encode(v: Self::V)
        ensures
            Self::spec_parse(Self::spec_encode(v)) == Some(v),
    ;

    fn default_record() -> (r: Self)
        ensures
            r@ == Self::spec_default(),
    ;

    fn encode_record(&self) -> (r: String)
        ensures
            r@ == Self::spec_encode(self@),
    ;

    fn parse_record(s: &str) -> (r: Option<Self>)
        ensures
            r matches Some(v) ==> Self::spec_parse(s@) == Some(v@),
            r is None ==> Self::spec_parse(s@) is None,
    ;
}

/// What loading a record file yields.
pub enum LoadOutcome<T> {
    /// The file existed and parsed.
    Loaded { value: T },
    /// The file was absent: the default value, and the text the caller must
    /// write so that the file exists from now on.
    Created { value: T, file_text: String },
    /// The file existed but its contents do not parse as the record type.
    /// Nothing may be written back: the corrupt file is preserved.
    Invalid,
}

/// Loads a record from the contents of its backing file (`None`: the file is
/// absent).  An absent file yields the default value and the text to create
/// the file with; a corrupt file is reported and never overwritten.
pub fn load_record<T: StoreRecord>(contents: Option<&str>) -> (r: LoadOutcome<T>)
    ensures
        contents is None ==> (r matches LoadOutcome::Created { value, file_text }
            && value@ == T::spec_default() && file_text@ == T::spec_encode(T::spec_default())),
        contents matches Some(s) ==> match T::spec_parse(s@) {
            Some(v) => r matches LoadOutcome::Loaded { value } && value@ == v,
            None => r is Invalid,
        },
{
    match contents {
        None => {
            let value = T::default_record();
            let file_text = value.encode_record();
            LoadOutcome::Created { value, file_text }
        },
        Some(s) => match T::parse_record(s) {
            Some(value) => LoadOutcome::Loaded { value },
            None => LoadOutcome::Invalid,
        },
    }
}

/// The text that saving a record overwrites its backing file with.
pub fn save_record<T: StoreRecord>(value: &T) -> (r: String)
    ensures
        r@ == T::spec_encode(value@),
{
    value.encode_record()
}

/// Round trip: saving a record and loading the saved text yields the same
/// record value.
pub proof fn lemma_store_round_trip<T: StoreRecord>(v: T::V)
    ensures
        T::spec_parse(T::spec_encode(v)) == Some(v),
{
    T::lemma_parse_encode(v);
}

/// The run-log contents after appending one message: the previous contents,
/// the message, and a terminating newline.
pub fn appended_log(existing: &str, message: &str) -> (r: String)
    ensures
        r@ == existing@ + message@ + "\n"@,
{
    let mut out = String::new();
    out.append(existing);
    out.append(message);
    out.append("\n");
    proof {
        assert(out@ =~= existing@ + message@ + "\n"@);
    }
    out
}

/// The run-log contents that reset it at process start.
pub fn cleared_log() -> (r: String)
    ensures
        r@ == Seq::<char>::empty(),
{
    String::new()
}

/// Relies on `directories::ProjectDirs::from` and `ProjectDirs::config_dir`:
/// the per-user configuration directory for the given application identity,
/// rendered as a string.
#[verifier::external_body]
fn project_config_dir(qualifier: &str, organization: &str, application: &str) -> (r: Option<
    String,
>) {
    let dirs = directories::ProjectDirs::from(qualifier, organization, application)?;
    let s = dirs.config_dir().to_str()?;
    Some(s.to_string())
}

/// Relies on `directories::ProjectDirs::from` and `ProjectDirs::data_dir`:
/// the per-user data directory for the given application identity, rendered
/// as a string.
#[verifier::external_body]
fn project_data_dir(qualifier: &str, organization: &str, application: &str) -> (r: Option<
    String,
>) {
    let dirs = directories::ProjectDirs::from(qualifier, organization, application)?;
    let s = dirs.data_dir().to_str()?;
    Some(s.to_string())
}

/// The directory of a storage role, resolved once from the fixed application
/// identity by the host platform's per-user directory convention.  `None`
/// when the platform offers no home directory for the identity.
pub fn resolve_role_dir(role: StoreRole) -> (r: Option<String>) {
    match role {
        StoreRole::Config => project_config_dir("xyz", "server1rb", "symlinker"),
        StoreRole::Data => project_data_dir("xyz", "server1rb", "symlinker"),
    }
}

fn join_path(dir: String, name: &str) -> (r: String)
    ensures
        r@ == dir@ + "/"@ + name@,
{
    let ghost d0 = dir@;
    let mut out = dir;
    out.append("/");
    out.append(name);
    proof {
        assert(out@ =~= d0 + "/"@ + name@);
    }
    out
}

/// The full path of a named file under a role directory: the role directory,
/// a separator, and the file name.  `None` when the platform offers no home
/// for the application identity.
pub fn resolve_file_path(role: StoreRole, file_name: &str) -> (r: Option<String>)
    ensures
        r matches Some(p) ==> exists|d: Seq<char>| p@ == #[trigger] (d + "/"@ + file_name@),
{
    match resolve_role_dir(role) {
        Some(dir) => {
            let ghost d = dir@;
            let p = join_path(dir, file_name);
            proof {
                assert(p@ == d + "/"@ + file_name@);
            }
            Some(p)
        },
        None => None,
    }
}

} // verus!
