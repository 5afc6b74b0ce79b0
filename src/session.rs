//! The decisions of one run of the uploader: given what the outside world
//! reported last, what to do next.
use vstd::prelude::*;
use vstd::string::{StrSliceExecFns, StringExecFns};
use vstd::utf8::is_ascii_chars;
use crate::object::{key_fits, key_for_path, object_url, url_of};
use crate::settings::{
    all_present, refusal_fits, data_dir_placeholder, exe_dir_placeholder, field_value, found, shown, locate_config, ConfigCandidate, ConfigNotFound, Settings,
    SettingsError,
};

verus! {

#[verifier::external_type_specification]
#[verifier::external_body]
pub struct ExBaseUrl(minio::s3::http::BaseUrl);

#[verifier::external_type_specification]
#[verifier::external_body]
pub struct ExValidationErr(minio::s3::error::ValidationErr);

/// Whether the storage client takes a text as the base URL of a server.
pub uninterp spec fn accepts_base_url(s: Seq<char>) -> bool;

/// Text in ASCII without upper-case letters. The storage client matches
/// Amazon host names against lower-case ASCII patterns and takes a match
/// for granted on the host as written, so only such text is handed to it.
pub open spec fn is_lower_ascii(s: Seq<char>) -> bool {
    forall|i: int| 0 <= i < s.len() ==> (#[trigger] s[i] as u32) < 128 && !('A' <= s[i] <= 'Z')
}

/// The lower-case ASCII letters, in order.
pub open spec fn lower_letters() -> Seq<char> {
    "abcdefghijklmnopqrstuvwxyz"@
}

/// A character with an upper-case ASCII letter put in lower case.
pub open spec fn ascii_lower_char(c: char) -> char {
    if 'A' <= c <= 'Z' {
        lower_letters()[c as int - 'A' as int]
    } else {
        c
    }
}

/// A text with its upper-case ASCII letters put in lower case.
pub open spec fn ascii_lower(s: Seq<char>) -> Seq<char> {
    s.map_values(|c: char| ascii_lower_char(c))
}

proof fn lemma_lower_letters()
    ensures
        lower_letters().len() == 26,
        forall|k: int| 0 <= k < 26 ==> 'a' <= #[trigger] lower_letters()[k] <= 'z',
{
    reveal_strlit("abcdefghijklmnopqrstuvwxyz");
}

/// An ASCII text in lower case is what the storage client may be given.
proof fn lemma_ascii_lower(s: Seq<char>)
    requires
        is_ascii_chars(s),
    ensures
        is_lower_ascii(ascii_lower(s)),
{
    lemma_lower_letters();
    assert forall|i: int| 0 <= i < ascii_lower(s).len() implies (#[trigger] ascii_lower(s)[i] as u32)
        < 128 && !('A' <= ascii_lower(s)[i] <= 'Z') by {
        assert('\0' <= s[i] <= '\u{7f}');
    }
}

/// The text with its upper-case ASCII letters put in lower case; scheme and
/// host names do not depend on case.
pub fn ascii_lowercase(s: &str) -> (r: String)
    ensures
        r@ == ascii_lower(s@),
{
    let letters = "abcdefghijklmnopqrstuvwxyz";
    proof {
        lemma_lower_letters();
    }
    let n = s.unicode_len();
    let mut r = String::new();
    let mut i: usize = 0;
    while i < n
        invariant
            n == s@.len(),
            i <= n,
            letters@ == lower_letters(),
            lower_letters().len() == 26,
            r@ == ascii_lower(s@.subrange(0, i as int)),
        decreases n - i,
    {
        let c = s.get_char(i);
        if 'A' <= c && c <= 'Z' {
            let k = (c as u32 - 'A' as u32) as usize;
            r.append(letters.substring_char(k, k + 1));
        } else {
            r.append(s.substring_char(i, i + 1));
        }
        assert(ascii_lower(s@.subrange(0, i + 1)) =~= ascii_lower(s@.subrange(0, i as int)).push(
            ascii_lower_char(c),
        ));
        i = i + 1;
    }
    assert(s@.subrange(0, n as int) =~= s@);
    r
}

/// Relies on minio's `BaseUrl::from_str`: the endpoint parsed as the base URL
/// of an S3 server, or why it is no such URL. On upper-case or non-ASCII
/// host names it can panic, so those are not handed to it.
#[verifier::external_body]
fn parse_base_url(s: &str) -> (r: Result<minio::s3::http::BaseUrl, minio::s3::error::ValidationErr>)
    requires
        is_lower_ascii(s@),
    ensures
        r is Ok <==> accepts_base_url(s@),
{
    s.parse::<minio::s3::http::BaseUrl>()
}

/// What a run ends with, or warns of, shown to the user in a dialog.
pub enum Report {
    /// The context-menu entry was removed (or was not there).
    Unregistered,
    UnregisterFailed { message: String },
    RegisterFailed { message: String },
    /// No file was named on the command line.
    Usage { program: String },
    FileNotFound { path: String },
    ConfigNotFound(ConfigNotFound),
    ConfigUnreadable { path: String, message: String },
    ConfigInvalid(SettingsError),
    /// The endpoint holds non-ASCII characters.
    EndpointUnsupported { endpoint: String },
    EndpointInvalid(minio::s3::error::ValidationErr),
    UploadFailed { message: String },
    /// The upload succeeded and its URL is on the clipboard.
    Uploaded { url: String },
    /// The upload succeeded but its URL could not be put on the clipboard.
    CopyFailed { url: String, message: String },
    /// An event came that the run was not waiting for.
    OutOfOrder,
}

impl Report {
    /// Everything but a removal done and an upload copied is an error.
    pub open spec fn spec_is_error(&self) -> bool {
        !(self is Unregistered || self is Uploaded)
    }

    /// Whether the report is shown as an error rather than as information.
    #[verifier::when_used_as_spec(spec_is_error)]
    pub fn is_error(&self) -> (r: bool)
        ensures
            r == self.spec_is_error(),
    {
        match self {
            Report::Unregistered => false,
            Report::Uploaded { .. } => false,
            _ => true,
        }
    }
}

/// Relies on the `Display` of `config::ConfigError`: the parser's message.
#[verifier::external_body]
fn config_error_text(e: &config::ConfigError) -> (r: String) {
    e.to_string()
}

/// Relies on the `Display` of minio's `ValidationErr`: why an endpoint was
/// refused.
#[verifier::external_body]
fn validation_error_text(e: &minio::s3::error::ValidationErr) -> (r: String) {
    e.to_string()
}

/// The text `prefix` followed by some detail.
pub open spec fn starts_with(text: Seq<char>, prefix: Seq<char>) -> bool {
    prefix.len() <= text.len() && text.subrange(0, prefix.len() as int) == prefix
}

/// The wording of a report's dialog. Where the detail is an outside error,
/// only the opening words are fixed.
pub open spec fn message_fits(report: Report, text: Seq<char>) -> bool {
    match report {
        Report::Unregistered => text == "已移除右键菜单 (Current User)。"@,
        Report::UnregisterFailed { message } => text == "移除右键菜单失败: "@ + message@,
        Report::RegisterFailed { message } => text == "Failed to register context menu: "@ + message@,
        Report::Usage { program } => text == "No file path provided.\n\nUsage: Drag a file onto "@
            + program@ + " or use the context menu."@,
        Report::FileNotFound { path } => text == "File does not exist: "@ + path@,
        Report::ConfigNotFound(nf) => text
            == "Configuration file not found. Please create 'Settings.toml' in one of the following locations:\n\n1. "@
            + nf.data_dir_path@ + " (recommended)\n2. "@ + nf.exe_dir_path@,
        Report::ConfigUnreadable { path, message } => text == "Could not read "@ + path@ + ": "@
            + message@,
        Report::ConfigInvalid(SettingsError::Invalid(_)) => starts_with(text, "Invalid settings: "@),
        Report::ConfigInvalid(SettingsError::EmptyField(k)) => text == "Invalid settings: '"@ + k@
            + "' is empty"@,
        Report::EndpointUnsupported { endpoint } => text == "Invalid endpoint: "@ + endpoint@
            + " (write it in ASCII)"@,
        Report::EndpointInvalid(_) => starts_with(text, "Invalid endpoint: "@),
        Report::UploadFailed { message } => text == "上传失败: "@ + message@,
        Report::Uploaded { url } => text == "上传成功，链接已复制到剪切板:\n"@ + url@,
        Report::CopyFailed { url, message } => text == "上传成功，但复制到剪切板失败: "@ + message@
            + "\nURL: "@ + url@,
        Report::OutOfOrder => text == "Internal error: unexpected step."@,
    }
}

impl Report {
    /// The text of the dialog that shows the report.
    pub fn message(&self) -> (r: String)
        ensures
            message_fits(*self, r@),
    {
        match self {
            Report::Unregistered => String::from_str("已移除右键菜单 (Current User)。"),
            Report::UnregisterFailed { message } => {
                let mut r = String::from_str("移除右键菜单失败: ");
                r.append(message.as_str());
                r
            },
            Report::RegisterFailed { message } => {
                let mut r = String::from_str("Failed to register context menu: ");
                r.append(message.as_str());
                r
            },
            Report::Usage { program } => {
                let mut r = String::from_str("No file path provided.\n\nUsage: Drag a file onto ");
                r.append(program.as_str());
                r.append(" or use the context menu.");
                r
            },
            Report::FileNotFound { path } => {
                let mut r = String::from_str("File does not exist: ");
                r.append(path.as_str());
                r
            },
            Report::ConfigNotFound(nf) => {
                let mut r = String::from_str("Configuration file not found. Please create 'Settings.toml' in one of the following locations:\n\n1. ");
                r.append(nf.data_dir_path.as_str());
                r.append(" (recommended)\n2. ");
                r.append(nf.exe_dir_path.as_str());
                r
            },
            Report::ConfigUnreadable { path, message } => {
                let mut r = String::from_str("Could not read ");
                r.append(path.as_str());
                r.append(": ");
                r.append(message.as_str());
                r
            },
            Report::ConfigInvalid(SettingsError::Invalid(e)) => {
                let mut r = String::from_str("Invalid settings: ");
                let detail = config_error_text(e);
                r.append(detail.as_str());
                assert(r@.subrange(0, "Invalid settings: "@.len() as int) =~= "Invalid settings: "@);
                r
            },
            Report::ConfigInvalid(SettingsError::EmptyField(k)) => {
                let mut r = String::from_str("Invalid settings: '");
                r.append(k.as_str());
                r.append("' is empty");
                r
            },
            Report::EndpointUnsupported { endpoint } => {
                let mut r = String::from_str("Invalid endpoint: ");
                r.append(endpoint.as_str());
                r.append(" (write it in ASCII)");
                r
            },
            Report::EndpointInvalid(e) => {
                let mut r = String::from_str("Invalid endpoint: ");
                let detail = validation_error_text(e);
                r.append(detail.as_str());
                assert(r@.subrange(0, "Invalid endpoint: "@.len() as int) =~= "Invalid endpoint: "@);
                r
            },
            Report::UploadFailed { message } => {
                let mut r = String::from_str("上传失败: ");
                r.append(message.as_str());
                r
            },
            Report::Uploaded { url } => {
                let mut r = String::from_str("上传成功，链接已复制到剪切板:\n");
                r.append(url.as_str());
                r
            },
            Report::CopyFailed { url, message } => {
                let mut r = String::from_str("上传成功，但复制到剪切板失败: ");
                r.append(message.as_str());
                r.append("\nURL: ");
                r.append(url.as_str());
                r
            },
            Report::OutOfOrder => String::from_str("Internal error: unexpected step."),
        }
    }
}

/// What the caller is to do next.
pub enum Action {
    /// Remove the context-menu entry, then report `RegistrationRemoved`.
    RemoveRegistration,
    /// Make sure the context-menu entry exists, then report
    /// `RegistrationEnsured`.
    EnsureRegistration,
    /// Show a warning, then report `Acknowledged`.
    Notify(Report),
    /// Find out whether a file exists, then report `FileChecked`.
    CheckFile { path: String },
    /// Look for the settings file, then report `ConfigLocated`.
    LocateConfig,
    /// Read the settings file, then report `ConfigRead`.
    ReadConfig { path: String },
    /// Upload the file at `path` under `key`, then report `Uploaded`.
    Upload {
        base_url: minio::s3::http::BaseUrl,
        settings: Settings,
        key: String,
        path: String,
    },
    /// Put a text on the clipboard, then report `Copied`.
    CopyToClipboard { url: String },
    /// Show the report and end the process with the exit code.
    Finish { report: Report, exit_code: i32 },
}

/// What the caller saw when it carried out an action.
pub enum Event {
    RegistrationRemoved(Result<(), String>),
    RegistrationEnsured(Result<(), String>),
    Acknowledged,
    FileChecked { present: bool },
    ConfigLocated { data_dir: Option<ConfigCandidate>, exe_dir: Option<ConfigCandidate> },
    ConfigRead(Result<String, String>),
    Uploaded(Result<(), String>),
    Copied(Result<(), String>),
}

/// Where a run stands.
pub enum Stage {
    Unregistering,
    Registering { args: Vec<String> },
    Warned { args: Vec<String> },
    CheckingFile { path: String },
    Locating { path: String },
    Reading { path: String, config_path: String },
    Uploading { url: String },
    Copying { url: String },
    Done,
}

/// Two characters that are equal once ASCII letters are put in one case.
pub open spec fn same_ignoring_ascii_case(x: char, y: char) -> bool {
    ||| x == y
    ||| 'A' <= x <= 'Z' && x as u32 + 32 == y as u32
    ||| 'A' <= y <= 'Z' && y as u32 + 32 == x as u32
}

/// Two texts that are equal once ASCII letters are put in one case.
pub open spec fn eq_ignoring_ascii_case(a: Seq<char>, b: Seq<char>) -> bool {
    a.len() == b.len() && forall|i: int|
        0 <= i < a.len() ==> same_ignoring_ascii_case(#[trigger] a[i], b[i])
}

/// `--uninstall` or `/uninstall`, in any case.
pub open spec fn is_uninstall_flag(a: Seq<char>) -> bool {
    eq_ignoring_ascii_case(a, "--uninstall"@) || eq_ignoring_ascii_case(a, "/uninstall"@)
}

/// Some argument asks for the context-menu entry to be removed.
pub open spec fn asks_uninstall(args: Seq<String>) -> bool {
    exists|i: int| 0 <= i < args.len() && is_uninstall_flag(#[trigger] args[i]@)
}

/// The program's name as given in the first argument, else a default.
pub open spec fn program_name(args: Seq<String>) -> Seq<char> {
    if args.len() > 0 {
        args[0]@
    } else {
        "minio_uploader.exe"@
    }
}

fn eq_ignore_ascii_case(a: &str, b: &str) -> (r: bool)
    ensures
        r == eq_ignoring_ascii_case(a@, b@),
{
    let n = a.unicode_len();
    if n != b.unicode_len() {
        return false;
    }
    let mut i: usize = 0;
    while i < n
        invariant
            n == a@.len() == b@.len(),
            i <= n,
            forall|j: int| 0 <= j < i ==> same_ignoring_ascii_case(#[trigger] a@[j], b@[j]),
        decreases n - i,
    {
        let x = a.get_char(i) as u32;
        let y = b.get_char(i) as u32;
        let same = x == y || (65 <= x && x <= 90 && x + 32 == y) || (65 <= y && y <= 90 && y + 32
            == x);
        if !same {
            return false;
        }
        i = i + 1;
    }
    true
}

/// Whether some argument is `--uninstall` or `/uninstall`, in any case.
pub fn requests_uninstall(args: &Vec<String>) -> (r: bool)
    ensures
        r == asks_uninstall(args@),
{
    let mut i: usize = 0;
    while i < args.len()
        invariant
            i <= args@.len(),
            forall|j: int| 0 <= j < i ==> !is_uninstall_flag(#[trigger] args@[j]@),
        decreases args@.len() - i,
    {
        if eq_ignore_ascii_case(args[i].as_str(), "--uninstall") || eq_ignore_ascii_case(
            args[i].as_str(),
            "/uninstall",
        ) {
            return true;
        }
        i = i + 1;
    }
    false
}

/// The command the context-menu entry runs: the program, quoted, with the
/// chosen file as one quoted argument.
pub open spec fn command_line(exe: Seq<char>) -> Seq<char> {
    seq!['"'] + exe + seq!['"', ' ', '"', '%', '1', '"']
}

/// The command stored in the context-menu entry for the program at `exe`.
pub fn context_menu_command(exe: &str) -> (r: String)
    ensures
        r@ == command_line(exe@),
{
    proof {
        reveal_strlit("\"");
        reveal_strlit("\" \"%1\"");
    }
    let mut r = String::from_str("\"");
    r.append(exe);
    r.append("\" \"%1\"");
    assert(r@ =~= command_line(exe@));
    r
}

/// The run goes on once the context menu is dealt with: without a file
/// argument it ends with the usage, else it checks that the file exists.
pub open spec fn proceed_spec(args: Seq<String>, next: Stage, action: Action) -> bool {
    if args.len() < 2 {
        &&& next is Done
        &&& action matches Action::Finish { report: Report::Usage { program }, exit_code }
        &&& program@ == program_name(args)
        &&& exit_code == 1
    } else {
        &&& next matches Stage::CheckingFile { path }
        &&& path@ == args[1]@
        &&& action matches Action::CheckFile { path: p }
        &&& p@ == args[1]@
    }
}

/// How a run begins.
pub open spec fn start_spec(args: Seq<String>, shell_integration: bool, next: Stage, action: Action) -> bool {
    if shell_integration && asks_uninstall(args) {
        next is Unregistering && action is RemoveRegistration
    } else if shell_integration {
        next matches Stage::Registering { args: a } && a@ == args && action is EnsureRegistration
    } else {
        proceed_spec(args, next, action)
    }
}

/// The run ends with a report and an exit code.
pub open spec fn finishes(next: Stage, action: Action, code: i32) -> bool {
    &&& next is Done
    &&& action matches Action::Finish { exit_code, .. }
    &&& exit_code == code
}

/// The settings text is accepted.
pub open spec fn settings_ok(text: Seq<char>) -> bool {
    all_present(text) && forall|i: int| 0 <= i < 4 ==> (#[trigger] field_value(text, i)).len() > 0
}

/// One step of a run: from a stage and the event the caller saw, the next
/// stage and action. An event that the stage does not wait for ends the run.
pub open spec fn step_spec(stage: Stage, event: Event, next: Stage, action: Action) -> bool {
    match (stage, event) {
        (Stage::Unregistering, Event::RegistrationRemoved(Ok(_))) => {
            finishes(next, action, 0) && action->report is Unregistered
        },
        (Stage::Unregistering, Event::RegistrationRemoved(Err(m))) => {
            finishes(next, action, 1) && (action->report matches Report::UnregisterFailed { message }
                && message == m)
        },
        (Stage::Registering { args }, Event::RegistrationEnsured(Ok(_))) => {
            proceed_spec(args@, next, action)
        },
        (Stage::Registering { args }, Event::RegistrationEnsured(Err(m))) => {
            &&& next matches Stage::Warned { args: a }
            &&& a@ == args@
            &&& action matches Action::Notify(Report::RegisterFailed { message })
            &&& message == m
        },
        (Stage::Warned { args }, Event::Acknowledged) => proceed_spec(args@, next, action),
        (Stage::CheckingFile { path }, Event::FileChecked { present }) => {
            if present {
                next matches Stage::Locating { path: p } && p == path && action is LocateConfig
            } else {
                finishes(next, action, 1) && (action->report matches Report::FileNotFound { path: p }
                    && p == path)
            }
        },
        (Stage::Locating { path }, Event::ConfigLocated { data_dir, exe_dir }) => {
            if found(data_dir) is Some || found(exe_dir) is Some {
                let chosen = if found(data_dir) is Some {
                    found(data_dir)->0
                } else {
                    found(exe_dir)->0
                };
                &&& next matches Stage::Reading { path: p, config_path: cp }
                &&& p == path
                &&& cp@ == chosen
                &&& action matches Action::ReadConfig { path: c }
                &&& c@ == chosen
            } else {
                &&& finishes(next, action, 1)
                &&& action->report matches Report::ConfigNotFound(nf)
                &&& nf.data_dir_path@ == shown(data_dir, data_dir_placeholder())
                &&& nf.exe_dir_path@ == shown(exe_dir, exe_dir_placeholder())
            }
        },
        (Stage::Reading { path, config_path }, Event::ConfigRead(Err(m))) => {
            finishes(next, action, 1) && (action->report matches Report::ConfigUnreadable {
                path: p,
                message,
            } && p == config_path && message == m)
        },
        (Stage::Reading { path, config_path }, Event::ConfigRead(Ok(text))) => {
            if !settings_ok(text@) {
                finishes(next, action, 1) && (action->report matches Report::ConfigInvalid(e)
                    && refusal_fits(text@, e))
            } else if !is_ascii_chars(field_value(text@, 0)) {
                finishes(next, action, 1) && (action->report matches Report::EndpointUnsupported {
                    endpoint,
                } && endpoint@ == field_value(text@, 0))
            } else if !accepts_base_url(ascii_lower(field_value(text@, 0))) {
                finishes(next, action, 1) && action->report is EndpointInvalid
            } else {
                &&& next matches Stage::Uploading { url }
                &&& action matches Action::Upload { settings, key, path: p, .. }
                &&& p == path
                &&& key_fits(path@, key@)
                &&& settings.endpoint@ == field_value(text@, 0)
                &&& settings.access_key@ == field_value(text@, 1)
                &&& settings.secret_key@ == field_value(text@, 2)
                &&& settings.bucket@ == field_value(text@, 3)
                &&& url@ == url_of(settings.endpoint@, settings.bucket@, key@)
            }
        },
        (Stage::Uploading { url }, Event::Uploaded(Ok(_))) => {
            &&& next matches Stage::Copying { url: u }
            &&& u == url
            &&& action matches Action::CopyToClipboard { url: c }
            &&& c == url
        },
        (Stage::Uploading { url }, Event::Uploaded(Err(m))) => {
            finishes(next, action, 1) && (action->report matches Report::UploadFailed { message }
                && message == m)
        },
        (Stage::Copying { url }, Event::Copied(Ok(_))) => {
            finishes(next, action, 0) && (action->report matches Report::Uploaded { url: u } && u
                == url)
        },
        (Stage::Copying { url }, Event::Copied(Err(m))) => {
            finishes(next, action, 0) && (action->report matches Report::CopyFailed {
                url: u,
                message,
            } && u == url && message == m)
        },
        _ => finishes(next, action, 1) && action->report is OutOfOrder,
    }
}

fn proceed(args: Vec<String>) -> (r: (Stage, Action))
    ensures
        proceed_spec(args@, r.0, r.1),
{
    if args.len() < 2 {
        let program = if args.len() > 0 {
            args[0].clone()
        } else {
            proof {
                reveal_strlit("minio_uploader.exe");
            }
            String::from_str("minio_uploader.exe")
        };
        (Stage::Done, Action::Finish { report: Report::Usage { program }, exit_code: 1 })
    } else {
        let path = args[1].clone();
        (Stage::CheckingFile { path: args[1].clone() }, Action::CheckFile { path })
    }
}

/// Begins a run on the command-line arguments. Where the platform has a
/// context menu to register with, an uninstall flag removes the entry and
/// nothing else; otherwise the entry is made sure of first.
pub fn start(args: Vec<String>, shell_integration: bool) -> (r: (Stage, Action))
    ensures
        start_spec(args@, shell_integration, r.0, r.1),
{
    if shell_integration && requests_uninstall(&args) {
        (Stage::Unregistering, Action::RemoveRegistration)
    } else if shell_integration {
        (Stage::Registering { args }, Action::EnsureRegistration)
    } else {
        proceed(args)
    }
}

fn out_of_order() -> (r: (Stage, Action))
    ensures
        finishes(r.0, r.1, 1) && r.1->report is OutOfOrder,
{
    (Stage::Done, Action::Finish { report: Report::OutOfOrder, exit_code: 1 })
}

fn settings_read(path: String, config_path: String, text: String) -> (r: (Stage, Action))
    ensures
        step_spec(Stage::Reading { path, config_path }, Event::ConfigRead(Ok(text)), r.0, r.1),
{
    let settings = match Settings::new(text.as_str()) {
        Ok(settings) => settings,
        Err(e) => {
            return (Stage::Done, Action::Finish { report: Report::ConfigInvalid(e), exit_code: 1 });
        },
    };
    if !settings.endpoint.as_str().is_ascii() {
        let endpoint = settings.endpoint;
        return (
            Stage::Done,
            Action::Finish { report: Report::EndpointUnsupported { endpoint }, exit_code: 1 },
        );
    }
    let lowered = ascii_lowercase(settings.endpoint.as_str());
    proof {
        lemma_ascii_lower(settings.endpoint@);
    }
    match parse_base_url(lowered.as_str()) {
        Err(e) => (Stage::Done, Action::Finish { report: Report::EndpointInvalid(e), exit_code: 1 }),
        Ok(base_url) => {
            let key = key_for_path(path.as_str());
            let url = object_url(settings.endpoint.as_str(), settings.bucket.as_str(), key.as_str());
            (Stage::Uploading { url }, Action::Upload { base_url, settings, key, path })
        },
    }
}

/// Takes one step of a run: the next stage, and what to do next.
pub fn step(stage: Stage, event: Event) -> (r: (Stage, Action))
    ensures
        step_spec(stage, event, r.0, r.1),
{
    match stage {
        Stage::Unregistering => match event {
            Event::RegistrationRemoved(Ok(_)) => (
                Stage::Done,
                Action::Finish { report: Report::Unregistered, exit_code: 0 },
            ),
            Event::RegistrationRemoved(Err(message)) => (
                Stage::Done,
                Action::Finish { report: Report::UnregisterFailed { message }, exit_code: 1 },
            ),
            _ => out_of_order(),
        },
        Stage::Registering { args } => match event {
            Event::RegistrationEnsured(Ok(_)) => proceed(args),
            Event::RegistrationEnsured(Err(message)) => (
                Stage::Warned { args },
                Action::Notify(Report::RegisterFailed { message }),
            ),
            _ => out_of_order(),
        },
        Stage::Warned { args } => match event {
            Event::Acknowledged => proceed(args),
            _ => out_of_order(),
        },
        Stage::CheckingFile { path } => match event {
            Event::FileChecked { present } => {
                if present {
                    (Stage::Locating { path }, Action::LocateConfig)
                } else {
                    (
                        Stage::Done,
                        Action::Finish { report: Report::FileNotFound { path }, exit_code: 1 },
                    )
                }
            },
            _ => out_of_order(),
        },
        Stage::Locating { path } => match event {
            Event::ConfigLocated { data_dir, exe_dir } => match locate_config(data_dir, exe_dir) {
                Ok(config_path) => {
                    let read = config_path.clone();
                    (Stage::Reading { path, config_path }, Action::ReadConfig { path: read })
                },
                Err(not_found) => (
                    Stage::Done,
                    Action::Finish { report: Report::ConfigNotFound(not_found), exit_code: 1 },
                ),
            },
            _ => out_of_order(),
        },
        Stage::Reading { path, config_path } => match event {
            Event::ConfigRead(Ok(text)) => settings_read(path, config_path, text),
            Event::ConfigRead(Err(message)) => (
                Stage::Done,
                Action::Finish {
                    report: Report::ConfigUnreadable { path: config_path, message },
                    exit_code: 1,
                },
            ),
            _ => out_of_order(),
        },
        Stage::Uploading { url } => match event {
            Event::Uploaded(Ok(_)) => {
                let copy = url.clone();
                (Stage::Copying { url }, Action::CopyToClipboard { url: copy })
            },
            Event::Uploaded(Err(message)) => (
                Stage::Done,
                Action::Finish { report: Report::UploadFailed { message }, exit_code: 1 },
            ),
            _ => out_of_order(),
        },
        Stage::Copying { url } => match event {
            Event::Copied(Ok(_)) => (
                Stage::Done,
                Action::Finish { report: Report::Uploaded { url }, exit_code: 0 },
            ),
            Event::Copied(Err(message)) => (
                Stage::Done,
                Action::Finish { report: Report::CopyFailed { url, message }, exit_code: 0 },
            ),
            _ => out_of_order(),
        },
        Stage::Done => out_of_order(),
    }
}

/// A run: the stages it passed, the events the caller reported, and the
/// actions it asked for, each step as `start` and `step` take it.
pub open spec fn is_run(
    args: Seq<String>,
    shell_integration: bool,
    stages: Seq<Stage>,
    events: Seq<Event>,
    actions: Seq<Action>,
) -> bool {
    &&& stages.len() == events.len() + 1
    &&& actions.len() == stages.len()
    &&& start_spec(args, shell_integration, stages[0], actions[0])
    &&& forall|i: int|
        #![trigger events[i]]
        0 <= i < events.len() ==> step_spec(stages[i], events[i], stages[i + 1], actions[i + 1])
}

/// What a run without a file argument may ask for.
pub open spec fn usage_action(a: Action) -> bool {
    ||| a is EnsureRegistration
    ||| a is Notify
    ||| a matches Action::Finish { report, exit_code } && exit_code == 1 && (report is Usage
        || report is OutOfOrder)
}

/// Where a run without a file argument may stand.
pub open spec fn usage_stage(s: Stage) -> bool {
    ||| s matches Stage::Registering { args } && args@.len() < 2
    ||| s matches Stage::Warned { args } && args@.len() < 2
    ||| s is Done
}

proof fn lemma_usage_run(
    args: Seq<String>,
    shell_integration: bool,
    stages: Seq<Stage>,
    events: Seq<Event>,
    actions: Seq<Action>,
    i: int,
)
    requires
        is_run(args, shell_integration, stages, events, actions),
        args.len() < 2,
        !(shell_integration && asks_uninstall(args)),
        0 <= i < stages.len(),
    ensures
        usage_stage(stages[i]),
        usage_action(actions[i]),
    decreases i,
{
    if i > 0 {
        lemma_usage_run(args, shell_integration, stages, events, actions, i - 1);
        assert(step_spec(stages[i - 1], events[i - 1], stages[i], actions[i]));
    }
}

/// Without a file argument, and unless the context-menu entry is to be
/// removed, a run checks no file, looks for no settings and uploads nothing:
/// it ends with the usage report and exit code 1, whether or not settings
/// could have been loaded. (An event out of order ends it too.)
pub proof fn missing_argument_ends_in_usage(
    args: Seq<String>,
    shell_integration: bool,
    stages: Seq<Stage>,
    events: Seq<Event>,
    actions: Seq<Action>,
)
    requires
        is_run(args, shell_integration, stages, events, actions),
        args.len() < 2,
        !(shell_integration && asks_uninstall(args)),
    ensures
        forall|i: int| 0 <= i < actions.len() ==> usage_action(#[trigger] actions[i]),
{
    assert forall|i: int| 0 <= i < actions.len() implies usage_action(#[trigger] actions[i]) by {
        lemma_usage_run(args, shell_integration, stages, events, actions, i);
    }
}

/// The file was reported present at some step before `i`.
pub open spec fn file_found_before(stages: Seq<Stage>, events: Seq<Event>, i: int) -> bool {
    exists|j: int|
        0 <= j < i && reported_present(stages[j], #[trigger] events[j])
}

/// The caller reported that the file exists.
pub open spec fn reported_present(s: Stage, e: Event) -> bool {
    e matches Event::FileChecked { present } && present && s is CheckingFile
}

/// A stage that only follows a file reported present.
pub open spec fn after_file_check(s: Stage) -> bool {
    s is Locating || s is Reading || s is Uploading || s is Copying
}

proof fn lemma_file_checked_run(
    args: Seq<String>,
    shell_integration: bool,
    stages: Seq<Stage>,
    events: Seq<Event>,
    actions: Seq<Action>,
    i: int,
)
    requires
        is_run(args, shell_integration, stages, events, actions),
        0 <= i < stages.len(),
    ensures
        after_file_check(stages[i]) ==> file_found_before(stages, events, i),
        actions[i] is Upload ==> stages[i] is Uploading,
    decreases i,
{
    if i > 0 {
        lemma_file_checked_run(args, shell_integration, stages, events, actions, i - 1);
        assert(step_spec(stages[i - 1], events[i - 1], stages[i], actions[i]));
        if after_file_check(stages[i]) && !after_file_check(stages[i - 1]) {
            assert(file_found_before(stages, events, i));
        }
    }
}

/// A run asks for an upload only after the caller reported that the file
/// exists: a missing file ends the run before any client is built.
pub proof fn upload_only_after_file_found(
    args: Seq<String>,
    shell_integration: bool,
    stages: Seq<Stage>,
    events: Seq<Event>,
    actions: Seq<Action>,
)
    requires
        is_run(args, shell_integration, stages, events, actions),
    ensures
        forall|i: int|
            0 <= i < actions.len() && (#[trigger] actions[i]) is Upload ==> file_found_before(
                stages,
                events,
                i,
            ),
{
    assert forall|i: int| 0 <= i < actions.len() && (#[trigger] actions[i]) is Upload implies file_found_before(
        stages,
        events,
        i,
    ) by {
        lemma_file_checked_run(args, shell_integration, stages, events, actions, i);
    }
}

proof fn lemma_done_run(
    args: Seq<String>,
    shell_integration: bool,
    stages: Seq<Stage>,
    events: Seq<Event>,
    actions: Seq<Action>,
    i: int,
    k: int,
)
    requires
        is_run(args, shell_integration, stages, events, actions),
        0 <= i < k < stages.len(),
        stages[i] is Done,
    ensures
        stages[k] is Done,
        actions[k] is Finish,
    decreases k - i,
{
    if k > i + 1 {
        lemma_done_run(args, shell_integration, stages, events, actions, i, k - 1);
    }
    assert(step_spec(stages[k - 1], events[k - 1], stages[k], actions[k]));
}

/// Where neither place holds a settings file, the run ends there with the
/// report that names both places and exit code 1; nothing is uploaded
/// afterwards.
pub proof fn missing_config_ends_run(
    args: Seq<String>,
    shell_integration: bool,
    stages: Seq<Stage>,
    events: Seq<Event>,
    actions: Seq<Action>,
    i: int,
)
    requires
        is_run(args, shell_integration, stages, events, actions),
        0 <= i < events.len(),
        stages[i] is Locating,
        events[i] matches Event::ConfigLocated { data_dir, exe_dir } && found(data_dir) is None
            && found(exe_dir) is None,
    ensures
        actions[i + 1] matches Action::Finish { report: Report::ConfigNotFound(nf), exit_code } && exit_code
            == 1 && nf.data_dir_path@ == shown(events[i]->data_dir, data_dir_placeholder())
            && nf.exe_dir_path@ == shown(events[i]->exe_dir, exe_dir_placeholder()),
        forall|k: int| i < k < actions.len() ==> !((#[trigger] actions[k]) is Upload),
{
    assert(step_spec(stages[i], events[i], stages[i + 1], actions[i + 1]));
    assert forall|k: int| i < k < actions.len() implies !((#[trigger] actions[k]) is Upload) by {
        if k > i + 1 {
            lemma_done_run(args, shell_integration, stages, events, actions, i + 1, k);
        }
    }
}

proof fn lemma_uninstall_run(
    args: Seq<String>,
    stages: Seq<Stage>,
    events: Seq<Event>,
    actions: Seq<Action>,
    i: int,
)
    requires
        is_run(args, true, stages, events, actions),
        asks_uninstall(args),
        0 <= i < stages.len(),
    ensures
        stages[i] is Unregistering || stages[i] is Done,
        actions[i] is RemoveRegistration || actions[i] is Finish,
    decreases i,
{
    if i > 0 {
        lemma_uninstall_run(args, stages, events, actions, i - 1);
        assert(step_spec(stages[i - 1], events[i - 1], stages[i], actions[i]));
    }
}

/// The context-menu entry is reported removed.
pub open spec fn removal_succeeded(e: Event) -> bool {
    e matches Event::RegistrationRemoved(r) && r is Ok
}

/// The run ends with the removal reported and exit code 0.
pub open spec fn ends_unregistered(a: Action) -> bool {
    a matches Action::Finish { report, exit_code } && report is Unregistered && exit_code == 0
}

/// Where the platform has a context menu, an uninstall request removes the
/// entry and does nothing else: it looks for no settings and uploads
/// nothing. When the removal succeeds, as it does when there was no entry,
/// the run ends with exit code 0.
pub proof fn uninstall_needs_no_settings(
    args: Seq<String>,
    stages: Seq<Stage>,
    events: Seq<Event>,
    actions: Seq<Action>,
)
    requires
        is_run(args, true, stages, events, actions),
        asks_uninstall(args),
    ensures
        forall|i: int|
            0 <= i < actions.len() ==> (#[trigger] actions[i]) is RemoveRegistration
                || actions[i] is Finish,
        forall|i: int|
            0 <= i < events.len() && stages[i] is Unregistering && removal_succeeded(
                #[trigger] events[i],
            ) ==> ends_unregistered(actions[i + 1]),
{
    assert forall|i: int| 0 <= i < actions.len() implies (#[trigger] actions[i]) is RemoveRegistration
        || actions[i] is Finish by {
        lemma_uninstall_run(args, stages, events, actions, i);
    }
}

/// Once the upload has succeeded, the run exits with code 0 whether or not
/// the URL could be put on the clipboard.
pub proof fn clipboard_outcome_keeps_success(stage: Stage, event: Event, next: Stage, action: Action)
    requires
        step_spec(stage, event, next, action),
        stage is Copying,
        event is Copied,
    ensures
        action matches Action::Finish { exit_code, .. } && exit_code == 0,
{
}

/// The URL was that of an upload asked for before step `i`.
pub open spec fn url_of_upload_before(actions: Seq<Action>, i: int, url: Seq<char>) -> bool {
    exists|j: int|
        0 <= j < i && upload_with_url(#[trigger] actions[j], url)
}

/// An upload whose object is reached at `url`.
pub open spec fn upload_with_url(a: Action, url: Seq<char>) -> bool {
    a matches Action::Upload { settings, key, .. } && url == url_of(
        settings.endpoint@,
        settings.bucket@,
        key@,
    )
}

/// The URL a stage carries, if any.
pub open spec fn stage_url(s: Stage) -> Option<Seq<char>> {
    match s {
        Stage::Uploading { url } => Some(url@),
        Stage::Copying { url } => Some(url@),
        _ => None,
    }
}

/// The URL an action hands out, if any.
pub open spec fn reported_url(a: Action) -> Option<Seq<char>> {
    match a {
        Action::Finish { report: Report::Uploaded { url }, .. } => Some(url@),
        Action::Finish { report: Report::CopyFailed { url, .. }, .. } => Some(url@),
        Action::CopyToClipboard { url } => Some(url@),
        _ => None,
    }
}

proof fn lemma_url_run(
    args: Seq<String>,
    shell_integration: bool,
    stages: Seq<Stage>,
    events: Seq<Event>,
    actions: Seq<Action>,
    i: int,
)
    requires
        is_run(args, shell_integration, stages, events, actions),
        0 <= i < stages.len(),
    ensures
        stage_url(stages[i]) matches Some(u) ==> (url_of_upload_before(actions, i + 1, u)),
        reported_url(actions[i]) matches Some(u) ==> (url_of_upload_before(actions, i, u)),
    decreases i,
{
    if i > 0 {
        lemma_url_run(args, shell_integration, stages, events, actions, i - 1);
        assert(step_spec(stages[i - 1], events[i - 1], stages[i], actions[i]));
    }
}

/// The URL a run reports, or puts on the clipboard, is that of the upload it
/// asked for: the trimmed endpoint without trailing slashes, the bucket and
/// the percent-encoded key, joined by `/`.
pub proof fn reported_url_is_object_url(
    args: Seq<String>,
    shell_integration: bool,
    stages: Seq<Stage>,
    events: Seq<Event>,
    actions: Seq<Action>,
)
    requires
        is_run(args, shell_integration, stages, events, actions),
    ensures
        forall|i: int|
            0 <= i < actions.len() && (#[trigger] reported_url(actions[i])) is Some
                ==> url_of_upload_before(actions, i, reported_url(actions[i])->0),
{
    assert forall|i: int|
        0 <= i < actions.len() && (#[trigger] reported_url(actions[i])) is Some
            implies url_of_upload_before(actions, i, reported_url(actions[i])->0) by {
        lemma_url_run(args, shell_integration, stages, events, actions, i);
    }
}

} // verus!
