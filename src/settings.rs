//! Where the settings file is found, and what it must hold.
use vstd::prelude::*;
use vstd::string::StringExecFns;

verus! {

#[verifier::external_type_specification]
#[verifier::external_body]
pub struct ExConfigError(config::ConfigError);

/// The string that a TOML document gives for a key, where it parses and
/// holds a value for the key that reads as a string.
pub uninterp spec fn toml_string_value(text: Seq<char>, key: Seq<char>) -> Option<Seq<char>>;

/// Relies on `config::Config::builder` with a TOML source read from `text`,
/// then `Config::get_string`: the value of `key`, or the error met on the way.
#[verifier::external_body]
fn toml_string(text: &str, key: &str) -> (r: Result<String, config::ConfigError>)
    ensures
        r is Ok <==> toml_string_value(text@, key@) is Some,
        r is Ok ==> r->Ok_0@ == toml_string_value(text@, key@)->0,
{
    config::Config::builder().add_source(
        config::File::from_str(text, config::FileFormat::Toml),
    ).build().and_then(|c| c.get_string(key))
}

/// The connection settings of the uploader.
pub struct Settings {
    pub endpoint: String,
    pub access_key: String,
    pub secret_key: String,
    pub bucket: String,
}

/// Why a settings document was refused.
pub enum SettingsError {
    /// The document does not parse, or a field is missing or not a string.
    Invalid(config::ConfigError),
    /// The named field is present but empty.
    EmptyField(String),
}

/// The name of the field with the server's base URL.
pub open spec fn field_endpoint() -> Seq<char> {
    seq!['e', 'n', 'd', 'p', 'o', 'i', 'n', 't']
}

/// The name of the field with the access key.
pub open spec fn field_access_key() -> Seq<char> {
    seq!['a', 'c', 'c', 'e', 's', 's', '_', 'k', 'e', 'y']
}

/// The name of the field with the secret key.
pub open spec fn field_secret_key() -> Seq<char> {
    seq!['s', 'e', 'c', 'r', 'e', 't', '_', 'k', 'e', 'y']
}

/// The name of the field with the bucket.
pub open spec fn field_bucket() -> Seq<char> {
    seq!['b', 'u', 'c', 'k', 'e', 't']
}

/// The four fields a settings document must hold, in the order they are
/// checked.
pub open spec fn fields() -> Seq<Seq<char>> {
    seq![field_endpoint(), field_access_key(), field_secret_key(), field_bucket()]
}

/// Every field of the document is there as a string.
pub open spec fn all_present(text: Seq<char>) -> bool {
    forall|i: int| 0 <= i < 4 ==> (#[trigger] toml_string_value(text, fields()[i])) is Some
}

/// The value of field `i` of a document in which all fields are present.
pub open spec fn field_value(text: Seq<char>, i: int) -> Seq<char> {
    toml_string_value(text, fields()[i])->0
}

/// The first field whose value is empty is field `i`.
pub open spec fn first_empty(text: Seq<char>, i: int) -> bool {
    &&& 0 <= i < 4
    &&& field_value(text, i).len() == 0
    &&& forall|j: int| 0 <= j < i ==> (#[trigger] field_value(text, j)).len() > 0
}

/// The error a refused document gets: `Invalid`, with the parser's error,
/// exactly when a field is missing or the document does not parse; else the
/// first empty field.
pub open spec fn refusal_fits(text: Seq<char>, e: SettingsError) -> bool {
    match e {
        SettingsError::Invalid(_) => !all_present(text),
        SettingsError::EmptyField(k) => all_present(text) && exists|i: int|
            first_empty(text, i) && k@ == #[trigger] fields()[i],
    }
}

impl Settings {
    /// Every field holds some text.
    pub open spec fn wf(&self) -> bool {
        &&& self.endpoint@.len() > 0
        &&& self.access_key@.len() > 0
        &&& self.secret_key@.len() > 0
        &&& self.bucket@.len() > 0
    }

    /// Reads the settings from the text of a TOML document. All four fields
    /// must be present as strings, and none may be empty.
    pub fn new(text: &str) -> (r: Result<Settings, SettingsError>)
        ensures
            r is Ok <==> all_present(text@) && forall|i: int|
                0 <= i < 4 ==> (#[trigger] field_value(text@, i)).len() > 0,
            r matches Ok(s) ==> {
                &&& s.wf()
                &&& s.endpoint@ == field_value(text@, 0)
                &&& s.access_key@ == field_value(text@, 1)
                &&& s.secret_key@ == field_value(text@, 2)
                &&& s.bucket@ == field_value(text@, 3)
            },
            r matches Err(e) ==> refusal_fits(text@, e),
    {
        proof {
            reveal_strlit("endpoint");
            reveal_strlit("access_key");
            reveal_strlit("secret_key");
            reveal_strlit("bucket");
        }
        assert("endpoint"@ =~= fields()[0]);
        assert("access_key"@ =~= fields()[1]);
        assert("secret_key"@ =~= fields()[2]);
        assert("bucket"@ =~= fields()[3]);
        let endpoint = match toml_string(text, "endpoint") {
            Ok(v) => v,
            Err(e) => return Err(SettingsError::Invalid(e)),
        };
        let access_key = match toml_string(text, "access_key") {
            Ok(v) => v,
            Err(e) => return Err(SettingsError::Invalid(e)),
        };
        let secret_key = match toml_string(text, "secret_key") {
            Ok(v) => v,
            Err(e) => return Err(SettingsError::Invalid(e)),
        };
        let bucket = match toml_string(text, "bucket") {
            Ok(v) => v,
            Err(e) => return Err(SettingsError::Invalid(e)),
        };
        assert(all_present(text@)) by {
            assert forall|i: int| 0 <= i < 4 implies (#[trigger] toml_string_value(
                text@,
                fields()[i],
            )) is Some by {
                if i == 0 {
                } else if i == 1 {
                } else if i == 2 {
                } else {
                }
            }
        }
        assert(field_value(text@, 0) == endpoint@);
        assert(field_value(text@, 1) == access_key@);
        assert(field_value(text@, 2) == secret_key@);
        assert(field_value(text@, 3) == bucket@);
        if endpoint.as_str().is_empty() {
            assert(first_empty(text@, 0));
            return Err(SettingsError::EmptyField(String::from_str("endpoint")));
        }
        if access_key.as_str().is_empty() {
            assert(first_empty(text@, 1));
            return Err(SettingsError::EmptyField(String::from_str("access_key")));
        }
        if secret_key.as_str().is_empty() {
            assert(first_empty(text@, 2));
            return Err(SettingsError::EmptyField(String::from_str("secret_key")));
        }
        if bucket.as_str().is_empty() {
            assert(first_empty(text@, 3));
            return Err(SettingsError::EmptyField(String::from_str("bucket")));
        }
        Ok(Settings { endpoint, access_key, secret_key, bucket })
    }
}

/// A place where the settings file may be, and whether a file is there.
pub struct ConfigCandidate {
    pub path: String,
    pub exists: bool,
}

/// No settings file was found; the two places that were looked at, as they
/// are shown to the user.
pub struct ConfigNotFound {
    pub data_dir_path: String,
    pub exe_dir_path: String,
}

/// How the place in the user's data directory is shown when it could not be
/// worked out.
pub open spec fn data_dir_placeholder() -> Seq<char> {
    "%APPDATA%\\MinioUploader\\Settings.toml"@
}

/// How the place beside the program is shown when it could not be worked out.
pub open spec fn exe_dir_placeholder() -> Seq<char> {
    "<executable_dir>\\Settings.toml"@
}

/// The path of a candidate that holds a file.
pub open spec fn found(c: Option<ConfigCandidate>) -> Option<Seq<char>> {
    match c {
        Some(c) => if c.exists {
            Some(c.path@)
        } else {
            None
        },
        None => None,
    }
}

/// How a candidate is named to the user.
pub open spec fn shown(c: Option<ConfigCandidate>, placeholder: Seq<char>) -> Seq<char> {
    match c {
        Some(c) => c.path@,
        None => placeholder,
    }
}

fn shown_path(c: Option<ConfigCandidate>, placeholder: &str) -> (r: String)
    ensures
        r@ == shown(c, placeholder@),
{
    match c {
        Some(c) => c.path,
        None => String::from_str(placeholder),
    }
}

/// Picks the settings file: the one in the user's data directory if it is
/// there, else the one beside the program. Where neither is there, both
/// places are reported.
pub fn locate_config(data_dir: Option<ConfigCandidate>, exe_dir: Option<ConfigCandidate>) -> (r:
    Result<String, ConfigNotFound>)
    ensures
        found(data_dir) is Some ==> (r matches Ok(p) && p@ == found(data_dir)->0),
        found(data_dir) is None && found(exe_dir) is Some ==> (r matches Ok(p) && p@ == found(
            exe_dir,
        )->0),
        found(data_dir) is None && found(exe_dir) is None ==> (r matches Err(e) && e.data_dir_path@
            == shown(data_dir, data_dir_placeholder()) && e.exe_dir_path@ == shown(
            exe_dir,
            exe_dir_placeholder(),
        )),
{
    if let Some(c) = &data_dir {
        if c.exists {
            return Ok(c.path.clone());
        }
    }
    if let Some(c) = &exe_dir {
        if c.exists {
            return Ok(c.path.clone());
        }
    }
    Err(
        ConfigNotFound {
            data_dir_path: shown_path(data_dir, "%APPDATA%\\MinioUploader\\Settings.toml"),
            exe_dir_path: shown_path(exe_dir, "<executable_dir>\\Settings.toml"),
        },
    )
}

} // verus!
