//! State behind the interactive views: the first-run setup wizard, the
//! add-server wizard, masked secret entry, the dashboard's display texts, and
//! the friendly rendering of error messages.

use vstd::prelude::*;

use crate::codec::{chars_to_string, pop_char, push_char};
use crate::config::Config;
use crate::state::RunStatus;
use crate::text::{
    chars_of, is_blank, lemma_split_on_len, lower_seq, seq_contains, split_on, str_contains,
    str_contains_lowered,
    str_eq, str_is_blank, trim_chars, trim_spec,
};
use vstd::string::{StrSliceExecFns, StringExecFns};

verus! {

// ─── Setup wizard ─────────────────────────────────────────────────────────────

/// One step of the first-run setup wizard.
#[derive(Clone, PartialEq, Eq, Structural, Debug)]
pub enum SetupStep {
    OutputDir,
    DefaultUser,
    DefaultFilePath,
    DefaultFileName,
}

impl SetupStep {
    pub open spec fn spec_index(self) -> int {
        match self {
            SetupStep::OutputDir => 0,
            SetupStep::DefaultUser => 1,
            SetupStep::DefaultFilePath => 2,
            SetupStep::DefaultFileName => 3,
        }
    }

    /// Position of the step in the wizard's fixed order.
    pub fn index(&self) -> (i: usize)
        ensures
            i == self.spec_index(),
            i < 4,
    {
        match self {
            SetupStep::OutputDir => 0,
            SetupStep::DefaultUser => 1,
            SetupStep::DefaultFilePath => 2,
            SetupStep::DefaultFileName => 3,
        }
    }

    /// Step that follows this one, `None` past the last step.
    pub fn next(&self) -> (n: Option<SetupStep>)
        ensures
            match n {
                Some(s) => s.spec_index() == self.spec_index() + 1,
                None => self.spec_index() == 3,
            },
    {
        match self {
            SetupStep::OutputDir => Some(SetupStep::DefaultUser),
            SetupStep::DefaultUser => Some(SetupStep::DefaultFilePath),
            SetupStep::DefaultFilePath => Some(SetupStep::DefaultFileName),
            SetupStep::DefaultFileName => None,
        }
    }

    /// Step before this one, `None` at the first step.
    pub fn prev(&self) -> (p: Option<SetupStep>)
        ensures
            match p {
                Some(s) => s.spec_index() == self.spec_index() - 1,
                None => self.spec_index() == 0,
            },
    {
        match self {
            SetupStep::OutputDir => None,
            SetupStep::DefaultUser => Some(SetupStep::OutputDir),
            SetupStep::DefaultFilePath => Some(SetupStep::DefaultUser),
            SetupStep::DefaultFileName => Some(SetupStep::DefaultFilePath),
        }
    }

    /// Human-readable caption of the step.
    pub fn label(&self) -> (r: &'static str)
        ensures
            r@ == match self {
                SetupStep::OutputDir => "Local output directory"@,
                SetupStep::DefaultUser => "Default SSH user"@,
                SetupStep::DefaultFilePath => "Default remote file path"@,
                SetupStep::DefaultFileName => "Default remote file name"@,
            },
    {
        match self {
            SetupStep::OutputDir => "Local output directory",
            SetupStep::DefaultUser => "Default SSH user",
            SetupStep::DefaultFilePath => "Default remote file path",
            SetupStep::DefaultFileName => "Default remote file name",
        }
    }
}

impl Default for SetupStep {
    fn default() -> (r: Self)
        ensures
            r == SetupStep::OutputDir,
    {
        SetupStep::OutputDir
    }
}

/// What the first-run setup wizard has collected so far.
#[derive(Clone, Default)]
pub struct SetupWizardState {
    pub step: SetupStep,
    pub output_dir: String,
    pub default_user: String,
    pub default_file_path: String,
    pub default_file_name: String,
    pub error: Option<String>,
}

/// Validate the setup wizard's current step: only the output directory is
/// required; an all-whitespace value does not count.
pub fn validate(ws: &SetupWizardState) -> (r: Option<String>)
    ensures
        match r {
            Some(msg) => ws.step == SetupStep::OutputDir && is_blank(ws.output_dir@) && msg@
                == "Output directory is required"@,
            None => !(ws.step == SetupStep::OutputDir && is_blank(ws.output_dir@)),
        },
{
    if matches!(ws.step, SetupStep::OutputDir) && str_is_blank(ws.output_dir.as_str()) {
        Some(String::from_str("Output directory is required"))
    } else {
        None
    }
}

// ─── TOML rendering of the setup wizard's answers ─────────────────────────────

/// One character's escape inside a TOML basic (double-quoted) string.
pub open spec fn toml_escape_char(c: char) -> Seq<char> {
    if c == '\\' {
        seq!['\\', '\\']
    } else if c == '"' {
        seq!['\\', '"']
    } else {
        seq![c]
    }
}

/// A string's escape inside a TOML basic string: backslashes and double
/// quotes gain a backslash; everything else is unchanged.
pub open spec fn toml_escape_spec(s: Seq<char>) -> Seq<char>
    decreases s.len(),
{
    if s.len() == 0 {
        Seq::empty()
    } else {
        toml_escape_spec(s.drop_last()) + toml_escape_char(s[s.len() - 1])
    }
}

/// Escape a value for inclusion in a TOML basic string.
pub fn toml_escape(s: &str) -> (r: String)
    ensures
        r@ == toml_escape_spec(s@),
{
    let chars = chars_of(s);
    let mut out: Vec<char> = Vec::new();
    let mut i: usize = 0;
    while i < chars.len()
        invariant
            chars@ == s@,
            i <= s@.len(),
            out@ == toml_escape_spec(s@.subrange(0, i as int)),
        decreases s@.len() - i,
    {
        let c = chars[i];
        proof {
            assert(s@.subrange(0, i + 1 as int).drop_last() =~= s@.subrange(0, i as int));
            assert(s@.subrange(0, i + 1 as int).last() == s@[i as int]);
        }
        if c == '\\' {
            out.push('\\');
            out.push('\\');
        } else if c == '"' {
            out.push('\\');
            out.push('"');
        } else {
            out.push(c);
        }
        assert(out@ =~= toml_escape_spec(s@.subrange(0, i + 1 as int)));
        i = i + 1;
    }
    proof {
        assert(s@.subrange(0, s@.len() as int) =~= s@);
    }
    chars_to_string(&out)
}

/// One `key = "value"` line, the value trimmed and escaped.
pub open spec fn toml_line_spec(key: Seq<char>, value: Seq<char>) -> Seq<char> {
    key + " = \""@ + toml_escape_spec(trim_spec(value)) + "\"\n"@
}

/// The configuration document the setup wizard writes: the output directory
/// line always, then one line per default the user filled in.
pub open spec fn build_config_toml_spec(
    output_dir: Seq<char>,
    default_user: Seq<char>,
    default_file_path: Seq<char>,
    default_file_name: Seq<char>,
) -> Seq<char> {
    let base = toml_line_spec("local_output_dir"@, output_dir);
    let with_user = if is_blank(default_user) {
        base
    } else {
        base + toml_line_spec("default_user"@, default_user)
    };
    let with_path = if is_blank(default_file_path) {
        with_user
    } else {
        with_user + toml_line_spec("default_file_path"@, default_file_path)
    };
    if is_blank(default_file_name) {
        with_path
    } else {
        with_path + toml_line_spec("default_file_name"@, default_file_name)
    }
}

/// One `key = "value"` line.
fn toml_line(key: &str, value: &str) -> (r: String)
    ensures
        r@ == toml_line_spec(key@, value@),
{
    let vchars = chars_of(value);
    let trimmed = trim_chars(&vchars);
    let trimmed_str = chars_to_string(&trimmed);
    let escaped = toml_escape(trimmed_str.as_str());
    let mut line = key.to_owned();
    line.append(" = \"");
    line.append(escaped.as_str());
    line.append("\"\n");
    line
}

/// Render the setup wizard's answers as the configuration file's text.
pub fn build_config_toml(ws: &SetupWizardState) -> (r: String)
    ensures
        r@ == build_config_toml_spec(
            ws.output_dir@,
            ws.default_user@,
            ws.default_file_path@,
            ws.default_file_name@,
        ),
{
    let mut toml = toml_line("local_output_dir", ws.output_dir.as_str());
    if !str_is_blank(ws.default_user.as_str()) {
        let line = toml_line("default_user", ws.default_user.as_str());
        toml.append(line.as_str());
    }
    if !str_is_blank(ws.default_file_path.as_str()) {
        let line = toml_line("default_file_path", ws.default_file_path.as_str());
        toml.append(line.as_str());
    }
    if !str_is_blank(ws.default_file_name.as_str()) {
        let line = toml_line("default_file_name", ws.default_file_name.as_str());
        toml.append(line.as_str());
    }
    toml
}

// ─── Add-server wizard ────────────────────────────────────────────────────────

/// One step of the add-server wizard.
#[derive(Clone, Copy, PartialEq, Eq, Structural, Debug)]
pub enum WizardStep {
    Name,
    Address,
    User,
    FilePath,
    FileName,
    TargetClusterIp,
    ContextName,
    Auth,
}

impl WizardStep {
    pub open spec fn spec_index(self) -> int {
        match self {
            WizardStep::Name => 0,
            WizardStep::Address => 1,
            WizardStep::User => 2,
            WizardStep::FilePath => 3,
            WizardStep::FileName => 4,
            WizardStep::TargetClusterIp => 5,
            WizardStep::ContextName => 6,
            WizardStep::Auth => 7,
        }
    }

    /// Position of the step in the wizard's fixed order.
    pub fn index(&self) -> (i: usize)
        ensures
            i == self.spec_index(),
            i < 8,
    {
        match self {
            WizardStep::Name => 0,
            WizardStep::Address => 1,
            WizardStep::User => 2,
            WizardStep::FilePath => 3,
            WizardStep::FileName => 4,
            WizardStep::TargetClusterIp => 5,
            WizardStep::ContextName => 6,
            WizardStep::Auth => 7,
        }
    }

    /// Human-readable caption of the step.
    pub fn label(&self) -> (r: &'static str)
        ensures
            r@ == match self {
                WizardStep::Name => "Name"@,
                WizardStep::Address => "Address"@,
                WizardStep::User => "SSH User"@,
                WizardStep::FilePath => "File Path"@,
                WizardStep::FileName => "File Name"@,
                WizardStep::TargetClusterIp => "Target Cluster IP"@,
                WizardStep::ContextName => "Context Name"@,
                WizardStep::Auth => "Authentication"@,
            },
    {
        match self {
            WizardStep::Name => "Name",
            WizardStep::Address => "Address",
            WizardStep::User => "SSH User",
            WizardStep::FilePath => "File Path",
            WizardStep::FileName => "File Name",
            WizardStep::TargetClusterIp => "Target Cluster IP",
            WizardStep::ContextName => "Context Name",
            WizardStep::Auth => "Authentication",
        }
    }

    /// Step that follows this one, `None` past the last step.
    pub fn next(&self) -> (n: Option<WizardStep>)
        ensures
            match n {
                Some(s) => s.spec_index() == self.spec_index() + 1,
                None => self.spec_index() == 7,
            },
    {
        match self {
            WizardStep::Name => Some(WizardStep::Address),
            WizardStep::Address => Some(WizardStep::User),
            WizardStep::User => Some(WizardStep::FilePath),
            WizardStep::FilePath => Some(WizardStep::FileName),
            WizardStep::FileName => Some(WizardStep::TargetClusterIp),
            WizardStep::TargetClusterIp => Some(WizardStep::ContextName),
            WizardStep::ContextName => Some(WizardStep::Auth),
            WizardStep::Auth => None,
        }
    }

    /// Step before this one, `None` at the first step.
    pub fn prev(&self) -> (p: Option<WizardStep>)
        ensures
            match p {
                Some(s) => s.spec_index() == self.spec_index() - 1,
                None => self.spec_index() == 0,
            },
    {
        match self {
            WizardStep::Name => None,
            WizardStep::Address => Some(WizardStep::Name),
            WizardStep::User => Some(WizardStep::Address),
            WizardStep::FilePath => Some(WizardStep::User),
            WizardStep::FileName => Some(WizardStep::FilePath),
            WizardStep::TargetClusterIp => Some(WizardStep::FileName),
            WizardStep::ContextName => Some(WizardStep::TargetClusterIp),
            WizardStep::Auth => Some(WizardStep::ContextName),
        }
    }
}

impl Default for WizardStep {
    fn default() -> (r: Self)
        ensures
            r == WizardStep::Name,
    {
        WizardStep::Name
    }
}

/// How the add-server wizard will authenticate.
#[derive(Clone, Copy, PartialEq, Eq, Structural, Debug)]
pub enum AuthMethod {
    Password,
    IdentityFile,
}

impl Default for AuthMethod {
    fn default() -> (r: Self)
        ensures
            r == AuthMethod::Password,
    {
        AuthMethod::Password
    }
}

// ─── Masked input ─────────────────────────────────────────────────────────────

/// A text field whose contents are displayed masked (for secrets).
#[derive(Clone, Default)]
pub struct MaskedInput {
    pub value: String,
}

impl MaskedInput {
    /// An empty field.
    pub fn new() -> (r: Self)
        ensures
            r.value@ == Seq::<char>::empty(),
    {
        MaskedInput { value: String::new() }
    }

    /// Append one character, up to the field's length cap.
    pub fn push(&mut self, c: char)
        ensures
            final(self).value@ == if old(self).value@.len() < 256 {
                old(self).value@.push(c)
            } else {
                old(self).value@
            },
    {
        if self.value.as_str().unicode_len() < 256 {
            push_char(&mut self.value, c);
        }
    }

    /// Remove the last character, if any.
    pub fn pop(&mut self)
        ensures
            final(self).value@ == if old(self).value@.len() > 0 {
                old(self).value@.drop_last()
            } else {
                old(self).value@
            },
    {
        let _ = pop_char(&mut self.value);
    }

    /// Empty the field.
    pub fn clear(&mut self)
        ensures
            final(self).value@ == Seq::<char>::empty(),
    {
        self.value = String::new();
    }

    /// The masking shown in place of the value: one `*` per character of it,
    /// carrying no character of the secret.
    pub fn masked_display(&self) -> (r: String)
        ensures
            r@.len() == self.value@.len(),
            forall|i: int| 0 <= i < r@.len() ==> r@[i] == '*',
    {
        let n = self.value.as_str().unicode_len();
        let mut stars: Vec<char> = Vec::new();
        let mut i: usize = 0;
        while i < n
            invariant
                i <= n,
                stars@.len() == i,
                forall|k: int| 0 <= k < i ==> stars@[k] == '*',
            decreases n - i,
        {
            stars.push('*');
            i = i + 1;
        }
        chars_to_string(&stars)
    }
}

/// What the add-server wizard has collected so far.
#[derive(Clone, Default)]
pub struct WizardState {
    pub step: WizardStep,
    pub name: String,
    pub address: String,
    pub user: String,
    pub file_path: String,
    pub file_name: String,
    pub target_cluster_ip: String,
    pub context_name: String,
    pub auth_method: AuthMethod,
    pub password_input: MaskedInput,
    pub identity_file_input: String,
    pub testing: bool,
    pub test_passed: bool,
    pub error: Option<String>,
}

impl WizardState {
    /// A fresh wizard at its first step with everything empty.
    pub fn new() -> (r: Self)
        ensures
            r.step == WizardStep::Name,
            r.name@ == Seq::<char>::empty(),
            r.address@ == Seq::<char>::empty(),
            r.user@ == Seq::<char>::empty(),
            r.file_path@ == Seq::<char>::empty(),
            r.file_name@ == Seq::<char>::empty(),
            r.target_cluster_ip@ == Seq::<char>::empty(),
            r.context_name@ == Seq::<char>::empty(),
            r.auth_method == AuthMethod::Password,
            r.password_input.value@ == Seq::<char>::empty(),
            r.identity_file_input@ == Seq::<char>::empty(),
            !r.testing,
            !r.test_passed,
            r.error is None,
    {
        WizardState {
            step: WizardStep::Name,
            name: String::new(),
            address: String::new(),
            user: String::new(),
            file_path: String::new(),
            file_name: String::new(),
            target_cluster_ip: String::new(),
            context_name: String::new(),
            auth_method: AuthMethod::Password,
            password_input: MaskedInput::new(),
            identity_file_input: String::new(),
            testing: false,
            test_passed: false,
            error: None,
        }
    }
}

// ─── IP address validation ────────────────────────────────────────────────────

/// `s` with one leading `+` sign removed, as `str::parse` strips it.
pub open spec fn strip_plus(s: Seq<char>) -> Seq<char> {
    if s.len() > 0 && s[0] == '+' {
        s.drop_first()
    } else {
        s
    }
}

/// At least one character, all decimal digits.
pub open spec fn all_digits(d: Seq<char>) -> bool {
    d.len() >= 1 && (forall|i: int| 0 <= i < d.len() ==> '0' <= #[trigger] d[i] <= '9')
}

/// A decimal octet as `str::parse::<u8>` accepts it: an optional leading `+`,
/// then at least one digit, denoting a value up to 255.
pub open spec fn is_decimal_octet(s: Seq<char>) -> bool {
    all_digits(strip_plus(s)) && decimal_value(strip_plus(s)) <= 255
}

/// The numeric value of a digit sequence.
pub open spec fn decimal_value(s: Seq<char>) -> int
    decreases s.len(),
{
    if s.len() == 0 {
        0
    } else {
        decimal_value(s.drop_last()) * 10 + (s[s.len() - 1] as int - '0' as int)
    }
}

/// Four dot-separated decimal octets.
pub open spec fn is_ipv4(s: Seq<char>) -> bool {
    let parts = split_on(s, '.');
    parts.len() == 4 && forall|i: int| 0 <= i < 4 ==> is_decimal_octet(#[trigger] parts[i])
}

/// Parse a decimal octet, as `str::parse::<u8>` would.
fn parse_octet(chars: &Vec<char>) -> (r: Option<u8>)
    ensures
        r is Some <==> is_decimal_octet(chars@),
{
    let ghost s = chars@;
    let start: usize = if chars.len() > 0 && chars[0] == '+' {
        1
    } else {
        0
    };
    let ghost digits = strip_plus(s);
    proof {
        assert(digits =~= s.subrange(start as int, s.len() as int));
    }
    if chars.len() == start {
        return None;
    }
    let mut value: u32 = 0;
    let mut i: usize = start;
    while i < chars.len()
        invariant
            s == chars@,
            start <= i <= s.len(),
            start == (if s.len() > 0 && s[0] == '+' {
                1int
            } else {
                0
            }),
            digits == strip_plus(s),
            digits =~= s.subrange(start as int, s.len() as int),
            forall|k: int| start <= k < i ==> '0' <= #[trigger] s[k] <= '9',
            value == decimal_value(s.subrange(start as int, i as int)),
            value <= 255,
        decreases s.len() - i,
    {
        let c = chars[i];
        if !('0' <= c && c <= '9') {
            proof {
                assert(c == s[i as int]);
                assert(!('0' <= s[i as int] && s[i as int] <= '9'));
                assert(digits[i - start] == s[i as int]);
                if is_decimal_octet(s) {
                    assert('0' <= digits[i - start] && digits[i - start] <= '9');
                }
            }
            return None;
        }
        let d = (c as u32) - 48;
        let next = value * 10 + d;
        proof {
            assert(s.subrange(start as int, i + 1 as int).drop_last() =~= s.subrange(
                start as int,
                i as int,
            ));
            assert(s.subrange(start as int, i + 1 as int).last() == s[i as int]);
        }
        if next > 255 {
            proof {
                if is_decimal_octet(s) {
                    assert(decimal_value(digits) <= 255);
                    assert forall|x: int| 0 <= x < digits.len() implies '0' <= #[trigger] digits[x]
                        <= '9' by {}
                    assert(digits.subrange(0, i + 1 - start) =~= s.subrange(
                        start as int,
                        i + 1 as int,
                    ));
                    lemma_decimal_prefix_monotonic(digits, i + 1 - start);
                }
            }
            return None;
        }
        value = next;
        i = i + 1;
    }
    proof {
        assert(s.subrange(start as int, s.len() as int) =~= digits);
    }
    Some(value as u8)
}

/// A digit sequence's value is at least its prefix's value.
proof fn lemma_decimal_prefix_monotonic(s: Seq<char>, k: int)
    requires
        0 <= k <= s.len(),
        forall|i: int| 0 <= i < s.len() ==> '0' <= #[trigger] s[i] <= '9',
    ensures
        decimal_value(s) >= decimal_value(s.subrange(0, k)),
        decimal_value(s) >= 0,
    decreases s.len() - k,
{
    if k == s.len() {
        assert(s.subrange(0, k) =~= s);
        lemma_decimal_nonnegative(s);
    } else {
        lemma_decimal_prefix_monotonic(s, k + 1);
        let pre = s.subrange(0, k);
        let ext = s.subrange(0, k + 1);
        assert(ext.drop_last() =~= pre);
        assert(ext.last() == s[k]);
        lemma_decimal_nonnegative(pre);
        assert(decimal_value(ext) == decimal_value(pre) * 10 + (s[k] as int - '0' as int));
        assert(decimal_value(pre) * 10 >= decimal_value(pre)) by (nonlinear_arith)
            requires
                decimal_value(pre) >= 0,
        ;
    }
}

/// A digit sequence's value is not negative.
proof fn lemma_decimal_nonnegative(s: Seq<char>)
    requires
        forall|i: int| 0 <= i < s.len() ==> '0' <= #[trigger] s[i] <= '9',
    ensures
        decimal_value(s) >= 0,
    decreases s.len(),
{
    if s.len() > 0 {
        let t = s.drop_last();
        assert(forall|i: int| 0 <= i < t.len() ==> '0' <= #[trigger] t[i] <= '9');
        lemma_decimal_nonnegative(t);
        assert(decimal_value(t) * 10 >= 0) by (nonlinear_arith)
            requires
                decimal_value(t) >= 0,
        ;
    }
}

/// Whether `s` is a dotted-quad IPv4 address.
pub fn is_ipv4_text(s: &str) -> (b: bool)
    ensures
        b == is_ipv4(s@),
{
    let chars = chars_of(s);
    let mut rest = chars;
    let ghost full = s@;
    let mut parts: usize = 0;
    let ghost mut done: Seq<Seq<char>> = Seq::empty();
    loop
        invariant
            full == s@,
            parts == done.len(),
            parts <= 3,
            split_on(full, '.') =~= done + split_on(rest@, '.'),
            forall|i: int| 0 <= i < done.len() ==> is_decimal_octet(#[trigger] done[i]),
        decreases rest@.len() + 1,
    {
        let ghost p = |c: char| c == '.';
        let rlen = rest.len();
        match crate::text::find_char(&rest, '.') {
            Some(dot) => {
                proof {
                    crate::find::lemma_first_where_is(rest@, p, dot as int);
                }
                let head = crate::text::chars_slice(&rest, 0, dot);
                let tail = crate::text::chars_slice(&rest, dot + 1, rlen);
                if parts >= 3 {
                    // Five or more pieces: not a dotted quad.
                    proof {
                        lemma_split_on_len(rest@, '.');
                    }
                    return false;
                }
                if parse_octet(&head).is_none() {
                    proof {
                        lemma_split_on_len(rest@, '.');
                        assert(split_on(full, '.')[done.len() as int] == head@);
                        if is_ipv4(full) {
                            assert(is_decimal_octet(split_on(full, '.')[done.len() as int]));
                        }
                    }
                    return false;
                }
                proof {
                    done = done.push(head@);
                }
                parts = parts + 1;
                rest = tail;
            },
            None => {
                proof {
                    crate::find::lemma_first_where_none(rest@, p);
                    assert(split_on(rest@, '.') =~= seq![rest@]);
                }
                if parts != 3 {
                    return false;
                }
                let ok = parse_octet(&rest).is_some();
                proof {
                    assert(split_on(full, '.')[3] == rest@);
                    if ok {
                        assert forall|i: int| 0 <= i < 4 implies is_decimal_octet(
                            #[trigger] split_on(full, '.')[i],
                        ) by {
                            if i < 3 {
                                assert(split_on(full, '.')[i] == done[i]);
                            }
                        }
                    } else {
                        if is_ipv4(full) {
                            assert(is_decimal_octet(split_on(full, '.')[3]));
                        }
                    }
                }
                return ok;
            },
        }
    }
}

/// Validate the add-server wizard's current step. Only the name, address and
/// target-IP steps can reject; the message names the first failed check.
pub fn wizard_validate_current(ws: &WizardState, config: &Config) -> (r: Option<String>)
    ensures
        match ws.step {
            WizardStep::Name => match r {
                Some(msg) => (ws.name@.len() == 0 && msg@ == "Name cannot be empty"@) || (
                ws.name@.len() > 0 && seq_contains(ws.name@, " "@) && msg@
                    == "Name cannot contain spaces"@) || (ws.name@.len() > 0 && !seq_contains(
                    ws.name@,
                    " "@,
                ) && crate::merge::named_in(
                    config@.servers,
                    |s: crate::config::ServerModel| s.name,
                    ws.name@,
                )),
                None => ws.name@.len() > 0 && !seq_contains(ws.name@, " "@)
                    && !crate::merge::named_in(
                    config@.servers,
                    |s: crate::config::ServerModel| s.name,
                    ws.name@,
                ),
            },
            WizardStep::Address => match r {
                Some(msg) => ws.address@.len() == 0 && msg@ == "Address cannot be empty"@,
                None => ws.address@.len() > 0,
            },
            WizardStep::TargetClusterIp => match r {
                Some(msg) => (ws.target_cluster_ip@.len() == 0 && msg@
                    == "Target cluster IP cannot be empty"@) || (ws.target_cluster_ip@.len() > 0
                    && !is_ipv4(ws.target_cluster_ip@) && msg@
                    == "Invalid IP address (expected x.x.x.x)"@),
                None => ws.target_cluster_ip@.len() > 0 && is_ipv4(ws.target_cluster_ip@),
            },
            _ => r is None,
        },
{
    match ws.step {
        WizardStep::Name => {
            if ws.name.as_str().unicode_len() == 0 {
                return Some(String::from_str("Name cannot be empty"));
            }
            if str_contains(ws.name.as_str(), " ") {
                return Some(String::from_str("Name cannot contain spaces"));
            }
            let ghost nm = |s: crate::config::ServerModel| s.name;
            let ghost sm = config@.servers;
            let mut i: usize = 0;
            while i < config.servers.len()
                invariant
                    sm == config@.servers,
                    nm == (|s: crate::config::ServerModel| s.name),
                    ws.step == WizardStep::Name,
                    ws.name@.len() > 0,
                    !seq_contains(ws.name@, " "@),
                    i <= sm.len(),
                    forall|k: int| 0 <= k < i ==> nm(#[trigger] sm[k]) != ws.name@,
                decreases sm.len() - i,
            {
                if str_eq(config.servers[i].name.as_str(), ws.name.as_str()) {
                    proof {
                        assert(sm[i as int] == config.servers@[i as int]@);
                        assert(nm(sm[i as int]) == ws.name@);
                        assert(crate::merge::named_in(sm, nm, ws.name@));
                    }
                    let mut msg = String::from_str("A server named '");
                    msg.append(ws.name.as_str());
                    msg.append("' already exists");
                    return Some(msg);
                }
                proof {
                    assert(sm[i as int] == config.servers@[i as int]@);
                }
                i = i + 1;
            }
            proof {
                if crate::merge::named_in(sm, nm, ws.name@) {
                    let w = choose|w: int| 0 <= w < sm.len() && nm(sm[w]) == ws.name@;
                    assert(nm(sm[w]) != ws.name@);
                }
            }
            None
        },
        WizardStep::Address => {
            if ws.address.as_str().unicode_len() == 0 {
                return Some(String::from_str("Address cannot be empty"));
            }
            None
        },
        WizardStep::TargetClusterIp => {
            if ws.target_cluster_ip.as_str().unicode_len() == 0 {
                return Some(String::from_str("Target cluster IP cannot be empty"));
            }
            if !is_ipv4_text(ws.target_cluster_ip.as_str()) {
                return Some(String::from_str("Invalid IP address (expected x.x.x.x)"));
            }
            None
        },
        _ => None,
    }
}

// ─── Spinner ──────────────────────────────────────────────────────────────────

/// The frame counter behind a spinner animation.
#[derive(Clone, Copy, Default)]
pub struct SpinnerState {
    pub frame: usize,
}

impl SpinnerState {
    /// Start at the first frame.
    pub fn new() -> (r: Self)
        ensures
            r.frame == 0,
    {
        SpinnerState { frame: 0 }
    }

    /// Advance to the next of the eight frames.
    pub fn tick(&mut self)
        ensures
            final(self).frame == (old(self).frame % 8 + 1) % 8,
    {
        self.frame = (self.frame % 8 + 1) % 8;
    }

    /// The glyph of the current frame.
    pub fn current(&self) -> &'static str {
        match self.frame % 8 {
            0 => "⣾",
            1 => "⣽",
            2 => "⣻",
            3 => "⢿",
            4 => "⡿",
            5 => "⣟",
            6 => "⣯",
            _ => "⣷",
        }
    }
}

// ─── Display texts ────────────────────────────────────────────────────────────

/// The icon-and-label text shown for a run status.
pub fn status_display(status: &RunStatus) -> (r: &'static str)
    ensures
        r@ == match status {
            RunStatus::Fetched => "✓ Fetched"@,
            RunStatus::Skipped => "— Skipped"@,
            RunStatus::NoCredential => "⚠ No credential"@,
            RunStatus::AuthRejected => "⚠ Auth rejected"@,
            RunStatus::Failed => "✗ Failed"@,
        },
{
    match status {
        RunStatus::Fetched => "✓ Fetched",
        RunStatus::Skipped => "— Skipped",
        RunStatus::NoCredential => "⚠ No credential",
        RunStatus::AuthRejected => "⚠ Auth rejected",
        RunStatus::Failed => "✗ Failed",
    }
}

/// The friendly rendering an error text receives: the first matching
/// classification's advice, else the text itself.
pub open spec fn friendly_error_spec(s: Seq<char>) -> Seq<char> {
    let l = lower_seq(s);
    if seq_contains(l, "connection refused"@) || seq_contains(l, "timed out"@) || seq_contains(
        l,
        "no route"@,
    ) {
        "Could not reach host — is it up and reachable from this machine?"@
    } else if seq_contains(l, "authentication failed"@) || seq_contains(l, "auth rejected"@) {
        "Password rejected by server. Check credentials with 'c'."@
    } else if seq_contains(l, "sudo"@) || seq_contains(l, "permission denied"@) {
        "Connected but couldn't read the remote file — sudo may require a password or the path may be wrong."@
    } else if seq_contains(l, "yaml"@) || seq_contains(l, "parse"@) {
        "Remote file doesn't look like a kubeconfig — check the file path in config."@
    } else if seq_contains(l, "no clusters"@) {
        "Kubeconfig has no cluster entries — expected standard k3s format."@
    } else if seq_contains(l, "keyring"@) || seq_contains(l, "secret service"@) {
        "OS keyring is locked or unavailable. Log in to unlock it, then retry."@
    } else {
        s
    }
}

/// Map an error text to a human-readable, actionable message.
pub fn friendly_error(e: &str) -> (r: String)
    ensures
        r@ == friendly_error_spec(e@),
{
    if str_contains_lowered(e, "connection refused") || str_contains_lowered(e, "timed out")
        || str_contains_lowered(e, "no route") {
        return String::from_str("Could not reach host — is it up and reachable from this machine?");
    }
    if str_contains_lowered(e, "authentication failed") || str_contains_lowered(
        e,
        "auth rejected",
    ) {
        return String::from_str("Password rejected by server. Check credentials with 'c'.");
    }
    if str_contains_lowered(e, "sudo") || str_contains_lowered(e, "permission denied") {
        return String::from_str(
            "Connected but couldn't read the remote file — sudo may require a password or the path may be wrong.",
        );
    }
    if str_contains_lowered(e, "yaml") || str_contains_lowered(e, "parse") {
        return String::from_str(
            "Remote file doesn't look like a kubeconfig — check the file path in config.",
        );
    }
    if str_contains_lowered(e, "no clusters") {
        return String::from_str("Kubeconfig has no cluster entries — expected standard k3s format.");
    }
    if str_contains_lowered(e, "keyring") || str_contains_lowered(e, "secret service") {
        return String::from_str("OS keyring is locked or unavailable. Log in to unlock it, then retry.");
    }
    e.to_owned()
}

} // verus!
