//! Credential resolution: a layered lookup across per-server and default
//! entries of a keyring backend, an explicit unavailability signal, and a
//! file-backed fallback store held as plain entries.

use vstd::prelude::*;

use crate::codec::{
    base64_decode, base64_decode_of, base64_encode, base64_encode_of, chars_to_string,
    is_base64_char, string_from_utf8,
};
use crate::find::{first_where, lemma_first_where_is, lemma_first_where_none};
use crate::kvlist::{
    kv_del, kv_distinct_keys, kv_get, kv_model, kv_removed, kv_set, kv_upsert, kv_value,
};
use crate::platform::{os_config_dir, os_home_dir};
use crate::text::{
    chars_are_blank, chars_of, chars_slice, find_char, is_blank, is_space, lower_seq,
    seq_contains, split_on, str_contains_lowered, trim_chars, trim_spec,
};
use vstd::string::StringExecFns;
use vstd::utf8::{decode_utf8, encode_utf8, valid_utf8};

verus! {

/// Result of one credential lookup. The payload of `Found` is the secret;
/// `Unavailable` means the backend itself cannot be reached, which callers
/// must treat as "cannot fetch", never as an authentication failure.
pub enum CredentialResult {
    Found(String),
    NotFound,
    Unavailable(String),
}

/// Model of a lookup result.
#[verifier::ext_equal]
pub enum CredentialModel {
    Found(Seq<char>),
    NotFound,
    Unavailable(Seq<char>),
}

impl View for CredentialResult {
    type V = CredentialModel;

    open spec fn view(&self) -> CredentialModel {
        match self {
            CredentialResult::Found(pw) => CredentialModel::Found(pw@),
            CredentialResult::NotFound => CredentialModel::NotFound,
            CredentialResult::Unavailable(m) => CredentialModel::Unavailable(m@),
        }
    }
}

impl CredentialResult {
    /// A display form that never carries the secret: the `Found` payload is
    /// replaced by a fixed marker, while the unavailability reason is kept.
    pub fn redacted(&self) -> (r: String)
        ensures
            r@ == match self@ {
                CredentialModel::Found(_) => "CredentialResult::Found(<redacted>)"@,
                CredentialModel::NotFound => "CredentialResult::NotFound"@,
                CredentialModel::Unavailable(m) => "CredentialResult::Unavailable("@ + m + ")"@,
            },
    {
        match self {
            CredentialResult::Found(_) => String::from_str("CredentialResult::Found(<redacted>)"),
            CredentialResult::NotFound => String::from_str("CredentialResult::NotFound"),
            CredentialResult::Unavailable(m) => {
                let mut s = String::from_str("CredentialResult::Unavailable(");
                s.append(m.as_str());
                s.append(")");
                s
            },
        }
    }
}

/// The service name every keyring entry of this tool lives under.
pub fn service_name() -> (r: &'static str)
    ensures
        r@ == "kube_config_updater"@,
{
    "kube_config_updater"
}

/// The account name of the process-wide default credential entry.
pub fn default_account() -> (r: &'static str)
    ensures
        r@ == "_default"@,
{
    "_default"
}

/// A credential store. The production implementations wrap the OS keyring
/// and a plain file; tests inject in-memory stores.
pub trait KeyringBackend {
    fn get(&self, service: &str, account: &str) -> CredentialResult;

    fn set(&mut self, service: &str, account: &str, password: &str) -> Result<(), String>;

    fn delete(&mut self, service: &str, account: &str) -> Result<(), String>;
}

// ─── The OS keyring ──────────────────────────────────────────────────────────

/// The OS keyring (D-Bus Secret Service on Linux).
pub struct RealKeyring;

/// Relies on `keyring::Entry::new` and `Entry::get_password`: a missing entry
/// is the `NoEntry` error; any other error means the backend is unreachable.
/// Nothing is promised of an OS keyring lookup.
#[verifier::external_body]
fn os_keyring_get(service: &str, account: &str) -> CredentialResult {
    match keyring::Entry::new(service, account) {
        Err(e) => CredentialResult::Unavailable(e.to_string()),
        Ok(entry) => match entry.get_password() {
            Ok(pw) => CredentialResult::Found(pw),
            Err(keyring::Error::NoEntry) => CredentialResult::NotFound,
            Err(e) => CredentialResult::Unavailable(e.to_string()),
        },
    }
}

/// Relies on `keyring::Entry::new` and `Entry::set_password`. Nothing is
/// promised of an OS keyring write.
#[verifier::external_body]
fn os_keyring_set(service: &str, account: &str, password: &str) -> Result<(), String> {
    match keyring::Entry::new(service, account) {
        Err(e) => Err(e.to_string()),
        Ok(entry) => entry.set_password(password).map_err(|e| e.to_string()),
    }
}

/// Relies on `keyring::Entry::new` and `Entry::delete_credential`. Nothing is
/// promised of an OS keyring removal.
#[verifier::external_body]
fn os_keyring_delete(service: &str, account: &str) -> Result<(), String> {
    match keyring::Entry::new(service, account) {
        Err(e) => Err(e.to_string()),
        Ok(entry) => entry.delete_credential().map_err(|e| e.to_string()),
    }
}

impl KeyringBackend for RealKeyring {
    fn get(&self, service: &str, account: &str) -> CredentialResult {
        os_keyring_get(service, account)
    }

    fn set(&mut self, service: &str, account: &str, password: &str) -> Result<(), String> {
        os_keyring_set(service, account, password)
    }

    fn delete(&mut self, service: &str, account: &str) -> Result<(), String> {
        os_keyring_delete(service, account)
    }
}

// ─── The file-backed fallback store ──────────────────────────────────────────

/// The file-backed fallback store, held as plain account/password entries.
/// Reading and writing the backing file is the caller's concern; this type
/// holds the store's contents and semantics.
pub struct FileKeyring {
    pub entries: Vec<(String, String)>,
}

impl FileKeyring {
    /// An empty store.
    pub fn new() -> (r: FileKeyring)
        ensures
            kv_model(r.entries@) == Seq::<(Seq<char>, Seq<char>)>::empty(),
    {
        let r = FileKeyring { entries: Vec::new() };
        proof {
            assert(kv_model(r.entries@) =~= Seq::<(Seq<char>, Seq<char>)>::empty());
        }
        r
    }

    /// Where the store's backing file lives: the user's configuration
    /// directory (or `.config` under the home directory) plus the tool's own
    /// subpath. The base depends on the environment; the result always ends
    /// with the tool's own subpath.
    pub fn default_path() -> (r: String)
        ensures
            exists|base: Seq<char>| r@ == base + "/kube_config_updater/credentials"@,
    {
        let base = match os_config_dir() {
            Some(d) => d,
            None => match os_home_dir() {
                Some(h) => h.concat("/.config"),
                None => String::from_str(".config"),
            },
        };
        let ghost base_view = base@;
        let r = base.concat("/kube_config_updater/credentials");
        proof {
            assert(r@ == base_view + "/kube_config_updater/credentials"@);
        }
        r
    }

    /// The password recorded for `account`, if any.
    pub fn lookup<'a>(&'a self, account: &str) -> (r: Option<&'a String>)
        ensures
            match r {
                Some(v) => kv_value(kv_model(self.entries@), account@) == Some(v@),
                None => kv_value(kv_model(self.entries@), account@) is None,
            },
    {
        kv_get(&self.entries, account)
    }

    /// Record a password for `account`.
    pub fn record(&mut self, account: &str, password: String)
        ensures
            kv_model(final(self).entries@) == kv_upsert(
                kv_model(old(self).entries@),
                account@,
                password@,
            ),
    {
        kv_set(&mut self.entries, account, password);
    }

    /// Remove the entry for `account`, if any.
    pub fn erase(&mut self, account: &str)
        ensures
            kv_model(final(self).entries@) == kv_removed(kv_model(old(self).entries@), account@),
    {
        kv_del(&mut self.entries, account);
    }
}

/// The three comment lines at the head of the store's backing file.
pub open spec fn header_line1() -> Seq<char> {
    "# kube_config_updater credentials"@
}

pub open spec fn header_line2() -> Seq<char> {
    "# Stored with restricted permissions (0600) — only you can read this file."@
}

pub open spec fn header_line3() -> Seq<char> {
    "# Same security model as ~/.kube/config and ~/.ssh/id_rsa."@
}

/// The comment block at the head of the store's backing file.
pub open spec fn store_header() -> Seq<char> {
    header_line1() + "\n"@ + header_line2() + "\n"@ + header_line3() + "\n"@
}

/// One stored entry's line, without its terminating newline: the account, a
/// tab, the base64 of the password.
pub open spec fn store_line_body(account: Seq<char>, password: Seq<char>) -> Seq<char> {
    account + "\t"@ + base64_encode_of(encode_utf8(password))
}

/// One stored entry's line.
pub open spec fn store_line(account: Seq<char>, password: Seq<char>) -> Seq<char> {
    store_line_body(account, password) + "\n"@
}

/// The lines of all entries, in order.
pub open spec fn store_lines(entries: Seq<(Seq<char>, Seq<char>)>) -> Seq<char>
    decreases entries.len(),
{
    if entries.len() == 0 {
        Seq::empty()
    } else {
        store_lines(entries.drop_last()) + store_line(
            entries.last().0,
            entries.last().1,
        )
    }
}

/// The text the store is persisted as.
pub open spec fn render_store_spec(entries: Seq<(Seq<char>, Seq<char>)>) -> Seq<char> {
    store_header() + store_lines(entries)
}

/// An account name the file format carries faithfully: not all whitespace,
/// free of tab and newline, and not opening with the comment marker.
pub open spec fn wf_account(a: Seq<char>) -> bool {
    &&& !is_blank(a)
    &&& a[0] != '#'
    &&& forall|i: int| 0 <= i < a.len() ==> #[trigger] a[i] != '\t' && a[i] != '\n'
}

/// Every account of the store is carried faithfully.
pub open spec fn wf_accounts(m: Seq<(Seq<char>, Seq<char>)>) -> bool {
    forall|k: int| 0 <= k < m.len() ==> wf_account((#[trigger] m[k]).0)
}

/// A store the file format round-trips: faithful accounts, no two alike.
/// An empty store has distinct keys, and `record` keeps them so
/// (`lemma_kv_upsert_keeps_distinct`).
pub open spec fn wf_store(m: Seq<(Seq<char>, Seq<char>)>) -> bool {
    &&& wf_accounts(m)
    &&& kv_distinct_keys(m)
}

/// The line bodies of all entries, in order.
pub open spec fn line_bodies(m: Seq<(Seq<char>, Seq<char>)>) -> Seq<Seq<char>>
    decreases m.len(),
{
    if m.len() == 0 {
        Seq::empty()
    } else {
        seq![store_line_body(m[0].0, m[0].1)] + line_bodies(m.drop_first())
    }
}

/// No line body carries a newline.
pub open spec fn bodies_newline_free(m: Seq<(Seq<char>, Seq<char>)>) -> bool {
    forall|k: int, i: int|
        0 <= k < m.len() && 0 <= i < store_line_body(m[k].0, m[k].1).len()
            ==> #[trigger] store_line_body(m[k].0, m[k].1)[i] != '\n'
}

/// Every line body parses back to its entry.
pub open spec fn bodies_parse(m: Seq<(Seq<char>, Seq<char>)>) -> bool {
    forall|k: int|
        0 <= k < m.len() ==> parse_line_spec(
            store_line_body((#[trigger] m[k]).0, m[k].1),
        ) == Some((m[k].0, m[k].1))
}

/// Entries folded into a list by upsert, from nothing.
pub open spec fn upsert_fold(m: Seq<(Seq<char>, Seq<char>)>) -> Seq<(Seq<char>, Seq<char>)>
    decreases m.len(),
{
    if m.len() == 0 {
        Seq::empty()
    } else {
        kv_upsert(upsert_fold(m.drop_last()), m.last().0, m.last().1)
    }
}

/// What one line of the backing file contributes: nothing for comments,
/// blank lines, lines without a tab, or lines whose base64 payload does not
/// decode to UTF-8 text; else the account and its password.
pub open spec fn parse_line_spec(line: Seq<char>) -> Option<(Seq<char>, Seq<char>)> {
    if line.len() > 0 && line[0] == '#' {
        None
    } else if is_blank(line) {
        None
    } else {
        parse_data_line(line)
    }
}

/// An account/password line: account, tab, base64 payload (trimmed).
pub open spec fn parse_data_line(line: Seq<char>) -> Option<(Seq<char>, Seq<char>)> {
    if first_where(line, |c: char| c == '\t') >= 0 {
        parse_split_line(line, first_where(line, |c: char| c == '\t'))
    } else {
        None
    }
}

/// The two halves of a data line, split at the first tab.
pub open spec fn parse_split_line(line: Seq<char>, t: int) -> Option<(Seq<char>, Seq<char>)> {
    match base64_decode_of(trim_spec(line.subrange(t + 1, line.len() as int))) {
        Some(bytes) => if valid_utf8(bytes) {
            Some((line.subrange(0, t), decode_utf8(bytes)))
        } else {
            None
        },
        None => None,
    }
}

/// The entries that a list of lines yields, later lines overwriting earlier
/// entries with the same account.
pub open spec fn parse_lines_spec(lines: Seq<Seq<char>>) -> Seq<(Seq<char>, Seq<char>)>
    decreases lines.len(),
{
    if lines.len() == 0 {
        Seq::empty()
    } else {
        match parse_line_spec(lines.last()) {
            Some(e) => kv_upsert(parse_lines_spec(lines.drop_last()), e.0, e.1),
            None => parse_lines_spec(lines.drop_last()),
        }
    }
}

/// The store a backing file's text yields.
pub open spec fn parse_store_spec(content: Seq<char>) -> Seq<(Seq<char>, Seq<char>)> {
    parse_lines_spec(split_on(content, '\n'))
}

// ─── The save/load round trip ────────────────────────────────────────────────

/// A base64 character is no whitespace and no newline or tab in particular.
proof fn lemma_base64_char_plain(c: char)
    requires
        is_base64_char(c),
    ensures
        !is_space(c),
        c != '\n',
        c != '\t',
{
}

/// Trimming moves nothing off a whitespace-free sequence.
proof fn lemma_trim_no_space(s: Seq<char>)
    requires
        forall|i: int| 0 <= i < s.len() ==> !is_space(#[trigger] s[i]),
    ensures
        trim_spec(s) == s,
{
    if s.len() > 0 {
        assert(!is_space(s[0]));
        assert(!is_space(s[s.len() - 1]));
    }
}

/// Splitting takes a newline-free line off the front.
proof fn lemma_split_line(line: Seq<char>, rest: Seq<char>)
    requires
        forall|i: int| 0 <= i < line.len() ==> #[trigger] line[i] != '\n',
    ensures
        split_on(line + "\n"@ + rest, '\n') == seq![line] + split_on(rest, '\n'),
{
    reveal_strlit("\n");
    let s = line + "\n"@ + rest;
    let p = |c: char| c == '\n';
    assert(s[line.len() as int] == '\n');
    assert forall|k: int| 0 <= k < line.len() implies !p(#[trigger] s[k]) by {
        assert(s[k] == line[k]);
    }
    lemma_first_where_is(s, p, line.len() as int);
    assert(s.subrange(0, line.len() as int) =~= line);
    assert(s.subrange(line.len() + 1int, s.len() as int) =~= rest);
    assert(split_on(s, '\n') =~= seq![line] + split_on(rest, '\n'));
}

/// The empty text splits into one empty line.
proof fn lemma_split_empty()
    ensures
        split_on(Seq::<char>::empty(), '\n') == seq![Seq::<char>::empty()],
{
    let p = |c: char| c == '\n';
    lemma_first_where_none(Seq::<char>::empty(), p);
    assert(split_on(Seq::<char>::empty(), '\n') =~= seq![Seq::<char>::empty()]);
}

/// The rendered lines decompose from the front as well.
proof fn lemma_store_lines_front(m: Seq<(Seq<char>, Seq<char>)>)
    requires
        m.len() > 0,
    ensures
        store_lines(m) == store_line(m[0].0, m[0].1) + store_lines(m.drop_first()),
    decreases m.len(),
{
    if m.len() == 1 {
        assert(m.drop_last() =~= Seq::<(Seq<char>, Seq<char>)>::empty());
        assert(m.drop_first() =~= Seq::<(Seq<char>, Seq<char>)>::empty());
        assert(m.last() == m[0]);
        assert(store_lines(m) =~= store_line(m[0].0, m[0].1) + store_lines(m.drop_first()));
    } else {
        let t = m.drop_last();
        lemma_store_lines_front(t);
        assert(t[0] == m[0]);
        let u = m.drop_first();
        assert(u.drop_last() =~= t.drop_first());
        assert(u.last() == m.last());
        assert(store_lines(u) == store_lines(t.drop_first()) + store_line(
            m.last().0,
            m.last().1,
        ));
        assert(store_lines(m) =~= store_line(m[0].0, m[0].1) + store_lines(u));
    }
}

/// The line bodies decompose from the back as well.
proof fn lemma_line_bodies_back(m: Seq<(Seq<char>, Seq<char>)>)
    requires
        m.len() > 0,
    ensures
        line_bodies(m) == line_bodies(m.drop_last()).push(
            store_line_body(m.last().0, m.last().1),
        ),
    decreases m.len(),
{
    if m.len() == 1 {
        assert(m.drop_first() =~= Seq::<(Seq<char>, Seq<char>)>::empty());
        assert(m.drop_last() =~= Seq::<(Seq<char>, Seq<char>)>::empty());
        assert(line_bodies(m) =~= line_bodies(m.drop_last()).push(
            store_line_body(m.last().0, m.last().1),
        ));
    } else {
        let u = m.drop_first();
        lemma_line_bodies_back(u);
        let t = m.drop_last();
        assert(u.drop_last() =~= t.drop_first());
        assert(u.last() == m.last());
        assert(t[0] == m[0]);
        assert(line_bodies(m) =~= line_bodies(t).push(store_line_body(m.last().0, m.last().1)));
    }
}

/// Splitting the rendered entry lines yields the line bodies and one final
/// empty piece.
proof fn lemma_split_store_lines(m: Seq<(Seq<char>, Seq<char>)>)
    requires
        bodies_newline_free(m),
    ensures
        split_on(store_lines(m), '\n') == line_bodies(m) + seq![Seq::<char>::empty()],
    decreases m.len(),
{
    if m.len() == 0 {
        lemma_split_empty();
        assert(line_bodies(m) =~= Seq::<Seq<char>>::empty());
        assert(split_on(store_lines(m), '\n') =~= line_bodies(m) + seq![Seq::<char>::empty()]);
    } else {
        lemma_store_lines_front(m);
        let body0 = store_line_body(m[0].0, m[0].1);
        let u = m.drop_first();
        assert(store_lines(m) =~= body0 + "\n"@ + store_lines(u));
        assert forall|i: int| 0 <= i < body0.len() implies #[trigger] body0[i] != '\n' by {
            assert(store_line_body(m[0].0, m[0].1)[i] != '\n');
        }
        lemma_split_line(body0, store_lines(u));
        assert forall|k: int, i: int|
            0 <= k < u.len() && 0 <= i < store_line_body(u[k].0, u[k].1).len() implies #[trigger] store_line_body(
            u[k].0,
            u[k].1,
        )[i] != '\n' by {
            assert(u[k] == m[k + 1]);
            assert(store_line_body(m[k + 1].0, m[k + 1].1)[i] != '\n');
        }
        lemma_split_store_lines(u);
        assert(split_on(store_lines(m), '\n') =~= line_bodies(m) + seq![Seq::<char>::empty()]);
    }
}

/// The header's lines carry no newline and parse to nothing.
proof fn lemma_header_lines()
    ensures
        header_line1().len() > 0 && header_line1()[0] == '#',
        header_line2().len() > 0 && header_line2()[0] == '#',
        header_line3().len() > 0 && header_line3()[0] == '#',
        forall|i: int| 0 <= i < header_line1().len() ==> #[trigger] header_line1()[i] != '\n',
        forall|i: int| 0 <= i < header_line2().len() ==> #[trigger] header_line2()[i] != '\n',
        forall|i: int| 0 <= i < header_line3().len() ==> #[trigger] header_line3()[i] != '\n',
        parse_line_spec(header_line1()) is None,
        parse_line_spec(header_line2()) is None,
        parse_line_spec(header_line3()) is None,
{
    reveal_strlit("# kube_config_updater credentials");
    reveal_strlit("# Stored with restricted permissions (0600) — only you can read this file.");
    reveal_strlit("# Same security model as ~/.kube/config and ~/.ssh/id_rsa.");
}

/// A trailing empty line parses to nothing.
proof fn lemma_parse_trailing_blank(lines: Seq<Seq<char>>)
    ensures
        parse_lines_spec(lines.push(Seq::<char>::empty())) == parse_lines_spec(lines),
{
    let all = lines.push(Seq::<char>::empty());
    assert(all.drop_last() =~= lines);
    assert(all.last() =~= Seq::<char>::empty());
    assert(is_blank(all.last()));
}

/// The header lines followed by parsing line bodies fold the entries up.
proof fn lemma_parse_rendered_lines(m: Seq<(Seq<char>, Seq<char>)>)
    requires
        bodies_parse(m),
    ensures
        parse_lines_spec(
            seq![header_line1(), header_line2(), header_line3()] + line_bodies(m),
        ) == upsert_fold(m),
    decreases m.len(),
{
    let h = seq![header_line1(), header_line2(), header_line3()];
    lemma_header_lines();
    if m.len() == 0 {
        assert(line_bodies(m) =~= Seq::<Seq<char>>::empty());
        let all = h + line_bodies(m);
        assert(all =~= h);
        let h2 = seq![header_line1(), header_line2()];
        let h1 = seq![header_line1()];
        assert(h.drop_last() =~= h2);
        assert(h.last() == header_line3());
        assert(parse_lines_spec(h) == parse_lines_spec(h2));
        assert(h2.drop_last() =~= h1);
        assert(h2.last() == header_line2());
        assert(parse_lines_spec(h2) == parse_lines_spec(h1));
        assert(h1.drop_last() =~= Seq::<Seq<char>>::empty());
        assert(h1.last() == header_line1());
        assert(parse_lines_spec(h1) == parse_lines_spec(Seq::<Seq<char>>::empty()));
        assert(parse_lines_spec(h) == Seq::<(Seq<char>, Seq<char>)>::empty());
    } else {
        lemma_line_bodies_back(m);
        let t = m.drop_last();
        let all = h + line_bodies(m);
        let pre = h + line_bodies(t);
        assert(all =~= pre.push(store_line_body(m.last().0, m.last().1)));
        assert forall|k: int|
            0 <= k < t.len() implies parse_line_spec(
            store_line_body((#[trigger] t[k]).0, t[k].1),
        ) == Some((t[k].0, t[k].1)) by {
            assert(t[k] == m[k]);
            assert(parse_line_spec(store_line_body(m[k].0, m[k].1)) == Some((m[k].0, m[k].1)));
        }
        lemma_parse_rendered_lines(t);
        assert(all.drop_last() =~= pre);
        assert(all.last() == store_line_body(m.last().0, m.last().1));
        assert(parse_line_spec(all.last()) == Some((m.last().0, m.last().1)));
        assert(parse_lines_spec(all) == kv_upsert(upsert_fold(t), m.last().0, m.last().1));
    }
}

/// With no two accounts alike, the upsert fold rebuilds the entries exactly.
proof fn lemma_upsert_fold_distinct(m: Seq<(Seq<char>, Seq<char>)>)
    requires
        forall|j: int, k: int| 0 <= j < k < m.len() ==> (#[trigger] m[j]).0 != (#[trigger] m[k]).0,
    ensures
        upsert_fold(m) == m,
    decreases m.len(),
{
    if m.len() > 0 {
        let t = m.drop_last();
        assert(forall|j: int, k: int|
            0 <= j < k < t.len() ==> (#[trigger] t[j]).0 != (#[trigger] t[k]).0);
        lemma_upsert_fold_distinct(t);
        let p = |e: (Seq<char>, Seq<char>)| e.0 == m.last().0;
        assert forall|k: int| 0 <= k < t.len() implies !p(#[trigger] t[k]) by {
            assert(t[k] == m[k]);
            assert(m[k].0 != m[m.len() - 1].0);
        }
        lemma_first_where_none(t, p);
        assert(t.push(m.last()) =~= m);
        assert(upsert_fold(m) =~= m);
    }
}

/// One rendered line parses back to its entry and carries no newline.
proof fn lemma_line_round_trip(a: Seq<char>, pw: Seq<char>, b64: Seq<char>)
    requires
        wf_account(a),
        b64 == base64_encode_of(encode_utf8(pw)),
        base64_decode_of(b64) == Some(encode_utf8(pw)),
        forall|i: int| 0 <= i < b64.len() ==> is_base64_char(#[trigger] b64[i]),
    ensures
        parse_line_spec(store_line_body(a, pw)) == Some((a, pw)),
        forall|i: int|
            0 <= i < store_line_body(a, pw).len() ==> #[trigger] store_line_body(a, pw)[i]
                != '\n',
{
    reveal_strlit("\t");
    let body = store_line_body(a, pw);
    assert(body.len() == a.len() + 1 + b64.len());
    // Each region of the line is newline-free: the account by its shape, the
    // tab plainly, the payload by its alphabet.
    assert forall|i: int| 0 <= i < body.len() implies #[trigger] body[i] != '\n' by {
        if i < a.len() {
            assert(body[i] == a[i]);
        } else if i == a.len() {
            assert(body[i] == '\t');
        } else {
            assert(body[i] == b64[i - a.len() - 1]);
            lemma_base64_char_plain(b64[i - a.len() - 1]);
        }
    }
    // Not a comment: the account is nonempty and does not open with `#`.
    assert(a.len() > 0) by {
        if a.len() == 0 {
            assert(is_blank(a));
        }
    }
    assert(body[0] == a[0]);
    assert(body[0] != '#');
    // Not blank: the account holds a non-space character.
    assert(!is_blank(body)) by {
        assert(!(forall|i: int| 0 <= i < a.len() ==> is_space(#[trigger] a[i])));
        let w = choose|w: int| 0 <= w < a.len() && !is_space(#[trigger] a[w]);
        assert(body[w] == a[w]);
        assert(!is_space(body[w]));
    }
    // The first tab stands right after the account.
    let p = |c: char| c == '\t';
    assert(body[a.len() as int] == '\t');
    assert forall|k: int| 0 <= k < a.len() implies !p(#[trigger] body[k]) by {
        assert(body[k] == a[k]);
    }
    lemma_first_where_is(body, p, a.len() as int);
    // The payload is the base64 text, trimmed to itself.
    assert(body.subrange(0, a.len() as int) =~= a);
    assert(body.subrange(a.len() + 1int, body.len() as int) =~= b64);
    assert forall|i: int| 0 <= i < b64.len() implies !is_space(#[trigger] b64[i]) by {
        lemma_base64_char_plain(b64[i]);
    }
    lemma_trim_no_space(b64);
    // Decode and UTF-8 round trips.
    vstd::utf8::encode_utf8_valid_utf8(pw);
    vstd::utf8::encode_utf8_decode_utf8(pw);
}

/// Law: a store with faithful, pairwise distinct account names is read back
/// from its rendered text exactly — the save/load round trip.
proof fn lemma_store_round_trip(m: Seq<(Seq<char>, Seq<char>)>)
    requires
        wf_store(m),
        bodies_parse(m),
        bodies_newline_free(m),
    ensures
        parse_store_spec(render_store_spec(m)) == m,
{
    lemma_header_lines();
    let rendered = render_store_spec(m);
    // Split the header off, line by line, then the entry lines.
    assert(rendered =~= header_line1() + "\n"@ + (header_line2() + "\n"@ + (header_line3()
        + "\n"@ + store_lines(m))));
    lemma_split_line(header_line1(), header_line2() + "\n"@ + (header_line3() + "\n"@
        + store_lines(m)));
    lemma_split_line(header_line2(), header_line3() + "\n"@ + store_lines(m));
    lemma_split_line(header_line3(), store_lines(m));
    lemma_split_store_lines(m);
    let h = seq![header_line1(), header_line2(), header_line3()];
    assert(split_on(rendered, '\n') =~= (h + line_bodies(m)).push(Seq::<char>::empty()));
    // Parse back: the header and the final blank contribute nothing, each
    // entry line folds its entry in, and distinct names rebuild the store.
    lemma_parse_trailing_blank(h + line_bodies(m));
    lemma_parse_rendered_lines(m);
    lemma_upsert_fold_distinct(m);
}

impl FileKeyring {
    /// Render the store as its backing file's text: the header comments, then
    /// one account/tab/base64 line per entry. A store whose accounts the file
    /// format carries faithfully, with no two alike, parses back exactly from
    /// that text — the save/load round trip.
    pub fn render_store(&self) -> (r: String)
        ensures
            r@ == render_store_spec(kv_model(self.entries@)),
            wf_store(kv_model(self.entries@)) ==> parse_store_spec(r@) == kv_model(
                self.entries@,
            ),
    {
        let ghost m = kv_model(self.entries@);
        let mut out = String::from_str("# kube_config_updater credentials");
        out.append("\n");
        out.append("# Stored with restricted permissions (0600) — only you can read this file.");
        out.append("\n");
        out.append("# Same security model as ~/.kube/config and ~/.ssh/id_rsa.");
        out.append("\n");
        let mut i: usize = 0;
        while i < self.entries.len()
            invariant
                m == kv_model(self.entries@),
                i <= m.len(),
                out@ == store_header() + store_lines(m.subrange(0, i as int)),
                wf_accounts(m) ==> forall|k: int|
                    0 <= k < i ==> parse_line_spec(
                        store_line_body((#[trigger] m[k]).0, m[k].1),
                    ) == Some((m[k].0, m[k].1)),
                wf_accounts(m) ==> forall|k: int, c: int|
                    0 <= k < i && 0 <= c < store_line_body(m[k].0, m[k].1).len()
                        ==> #[trigger] store_line_body(m[k].0, m[k].1)[c] != '\n',
            decreases m.len() - i,
        {
            proof {
                assert(m[i as int] == (self.entries@[i as int].0@, self.entries@[i as int].1@));
                assert(m.subrange(0, i + 1 as int).drop_last() =~= m.subrange(0, i as int));
                assert(m.subrange(0, i + 1 as int).last() == m[i as int]);
            }
            out.append(self.entries[i].0.as_str());
            out.append("\t");
            let b64 = base64_encode(self.entries[i].1.as_str().as_bytes());
            proof {
                if wf_accounts(m) {
                    assert(wf_account(m[i as int].0));
                    lemma_line_round_trip(m[i as int].0, m[i as int].1, b64@);
                }
            }
            out.append(b64.as_str());
            out.append("\n");
            i = i + 1;
        }
        proof {
            assert(m.subrange(0, m.len() as int) =~= m);
            if wf_store(m) {
                assert(bodies_parse(m));
                assert(bodies_newline_free(m));
                lemma_store_round_trip(m);
            }
        }
        out
    }

    /// Read one line of the backing file.
    fn parse_line(line: &Vec<char>) -> (r: Option<(String, String)>)
        ensures
            match r {
                Some(e) => parse_line_spec(line@) == Some((e.0@, e.1@)),
                None => parse_line_spec(line@) is None,
            },
    {
        if line.len() > 0 && line[0] == '#' {
            return None;
        }
        if chars_are_blank(line) {
            return None;
        }
        let ghost p = |c: char| c == '\t';
        let t = match find_char(line, '\t') {
            Some(t) => {
                proof {
                    lemma_first_where_is(line@, p, t as int);
                }
                t
            },
            None => {
                proof {
                    lemma_first_where_none(line@, p);
                }
                return None;
            },
        };
        let account_chars = chars_slice(line, 0, t);
        let line_len = line.len();
        let payload_chars = chars_slice(line, t + 1, line_len);
        let trimmed = trim_chars(&payload_chars);
        let trimmed_str = chars_to_string(&trimmed);
        let bytes = match base64_decode(trimmed_str.as_str()) {
            Some(b) => b,
            None => {
                return None;
            },
        };
        let password = match string_from_utf8(bytes) {
            Some(s) => s,
            None => {
                return None;
            },
        };
        let account = chars_to_string(&account_chars);
        proof {
            vstd::utf8::encode_utf8_decode_utf8(password@);
        }
        Some((account, password))
    }

    /// Read a backing file's text into a store, later duplicate accounts
    /// overwriting earlier ones.
    pub fn parse_store(content: &str) -> (r: FileKeyring)
        ensures
            kv_model(r.entries@) == parse_store_spec(content@),
    {
        let ghost full = content@;
        let mut entries: Vec<(String, String)> = Vec::new();
        let mut rest = chars_of(content);
        let ghost mut done: Seq<Seq<char>> = Seq::empty();
        loop
            invariant
                full == content@,
                split_on(full, '\n') =~= done + split_on(rest@, '\n'),
                kv_model(entries@) == parse_lines_spec(done),
            decreases rest@.len() + 1,
        {
            let ghost p = |c: char| c == '\n';
            let rlen = rest.len();
            match find_char(&rest, '\n') {
                Some(nl) => {
                    proof {
                        lemma_first_where_is(rest@, p, nl as int);
                    }
                    let head = chars_slice(&rest, 0, nl);
                    let tail = chars_slice(&rest, nl + 1, rlen);
                    proof {
                        assert(done.push(head@).drop_last() =~= done);
                        assert(done.push(head@).last() == head@);
                    }
                    if let Some((account, password)) = Self::parse_line(&head) {
                        kv_set(&mut entries, account.as_str(), password);
                    }
                    proof {
                        done = done.push(head@);
                    }
                    rest = tail;
                },
                None => {
                    proof {
                        lemma_first_where_none(rest@, p);
                        assert(split_on(rest@, '\n') =~= seq![rest@]);
                        assert(done.push(rest@).drop_last() =~= done);
                        assert(done.push(rest@).last() == rest@);
                        assert(done.push(rest@) =~= split_on(full, '\n'));
                    }
                    if let Some((account, password)) = Self::parse_line(&rest) {
                        kv_set(&mut entries, account.as_str(), password);
                    }
                    return FileKeyring { entries };
                },
            }
        }
    }
}

impl KeyringBackend for FileKeyring {
    fn get(&self, _service: &str, account: &str) -> (r: CredentialResult)
        ensures
            r@ == match kv_value(kv_model(self.entries@), account@) {
                Some(pw) => CredentialModel::Found(pw),
                None => CredentialModel::NotFound,
            },
    {
        match self.lookup(account) {
            Some(pw) => CredentialResult::Found(pw.clone()),
            None => CredentialResult::NotFound,
        }
    }

    fn set(&mut self, _service: &str, account: &str, password: &str) -> (r: Result<(), String>)
        ensures
            kv_model(final(self).entries@) == kv_upsert(
                kv_model(old(self).entries@),
                account@,
                password@,
            ),
            r is Ok,
    {
        self.record(account, password.to_owned());
        Ok(())
    }

    fn delete(&mut self, _service: &str, account: &str) -> (r: Result<(), String>)
        ensures
            kv_model(final(self).entries@) == kv_removed(kv_model(old(self).entries@), account@),
            r is Ok,
    {
        self.erase(account);
        Ok(())
    }
}

// ─── Resolution policy ───────────────────────────────────────────────────────

/// The layered lookup's outcome, given the per-server result and the default
/// entry's result: the per-server entry wins; only when it is missing does
/// the default entry answer, and only a found default counts.
pub open spec fn spec_resolve(
    primary: CredentialModel,
    fallback: CredentialModel,
) -> CredentialModel {
    match primary {
        CredentialModel::NotFound => match fallback {
            CredentialModel::Found(pw) => CredentialModel::Found(pw),
            _ => CredentialModel::NotFound,
        },
        other => other,
    }
}

/// Combine the per-server and default lookups per the layered policy.
pub fn resolve_lookup(primary: CredentialResult, fallback: CredentialResult) -> (r:
    CredentialResult)
    ensures
        r@ == spec_resolve(primary@, fallback@),
{
    match primary {
        CredentialResult::NotFound => match fallback {
            CredentialResult::Found(pw) => CredentialResult::Found(pw),
            _ => CredentialResult::NotFound,
        },
        other => other,
    }
}

/// The file store's own layered lookup: the entry under the server name
/// first, else the process-wide default entry, else nothing.
pub open spec fn spec_file_lookup(
    entries: Seq<(Seq<char>, Seq<char>)>,
    name: Seq<char>,
) -> CredentialModel {
    match kv_value(entries, name) {
        Some(pw) => CredentialModel::Found(pw),
        None => match kv_value(entries, "_default"@) {
            Some(pw) => CredentialModel::Found(pw),
            None => CredentialModel::NotFound,
        },
    }
}

/// What the unavailability fallback yields: when the primary backend is
/// unreachable, the file-backed store answers per the layered policy; any
/// other primary answer stands.
pub open spec fn spec_file_fallback(
    primary: CredentialModel,
    entries: Seq<(Seq<char>, Seq<char>)>,
    name: Seq<char>,
) -> CredentialModel {
    match primary {
        CredentialModel::Unavailable(_) => spec_file_lookup(entries, name),
        other => other,
    }
}

/// Retry an unavailable primary lookup against the file-backed store: the
/// fallback's whole read policy, on plain values.
pub fn resolve_with_file_fallback(
    primary: CredentialResult,
    store: &FileKeyring,
    server_name: &str,
) -> (r: CredentialResult)
    ensures
        r@ == spec_file_fallback(primary@, kv_model(store.entries@), server_name@),
{
    match primary {
        CredentialResult::Unavailable(_) => match store.lookup(server_name) {
            Some(pw) => CredentialResult::Found(pw.clone()),
            None => match store.lookup(default_account()) {
                Some(pw) => CredentialResult::Found(pw.clone()),
                None => CredentialResult::NotFound,
            },
        },
        other => other,
    }
}

/// Look up a credential for a server name against one backend: the entry
/// keyed by the server name first, then the process-wide default entry. The
/// backend is uncontracted — the OS keyring can promise nothing — so nothing
/// is stated of the result; the combination of the two lookups is the
/// verified `resolve_lookup`, and the file-backed path is the fully
/// contracted `resolve_with_file_fallback`.
pub fn get_credential_with<B: KeyringBackend>(server_name: &str, backend: &B) -> CredentialResult {
    match backend.get(service_name(), server_name) {
        CredentialResult::NotFound => {
            let fallback = backend.get(service_name(), default_account());
            resolve_lookup(CredentialResult::NotFound, fallback)
        },
        other => other,
    }
}

/// Store a credential for a server name.
pub fn set_credential_with<B: KeyringBackend>(
    server_name: &str,
    password: &str,
    backend: &mut B,
) -> Result<(), String> {
    backend.set(service_name(), server_name, password)
}

/// Store a credential in the OS keyring.
pub fn set_credential(server_name: &str, password: &str) -> Result<(), String> {
    let mut backend = RealKeyring;
    set_credential_with(server_name, password, &mut backend)
}

/// Remove the credential for a server name.
pub fn delete_credential_with<B: KeyringBackend>(server_name: &str, backend: &mut B) -> Result<
    (),
    String,
> {
    backend.delete(service_name(), server_name)
}

/// Look up credentials for a list of server names, preserving the names and
/// their order. Each value is that name's layered lookup against the backend;
/// with the backend uncontracted, only the pairing and order are stated.
pub fn check_credentials_with<'a, B: KeyringBackend>(
    server_names: &[&'a str],
    backend: &B,
) -> (r: Vec<(&'a str, CredentialResult)>)
    ensures
        r@.len() == server_names@.len(),
        forall|i: int| 0 <= i < r@.len() ==> (#[trigger] r@[i]).0 == server_names@[i],
{
    let mut r: Vec<(&'a str, CredentialResult)> = Vec::new();
    let mut i: usize = 0;
    while i < server_names.len()
        invariant
            i <= server_names@.len(),
            r@.len() == i,
            forall|k: int| 0 <= k < i ==> (#[trigger] r@[k]).0 == server_names@[k],
        decreases server_names@.len() - i,
    {
        let name = server_names[i];
        let result = get_credential_with(name, backend);
        r.push((name, result));
        i = i + 1;
    }
    r
}

/// Look up credentials for a list of server names against the OS keyring.
pub fn check_credentials<'a>(server_names: &[&'a str]) -> (r: Vec<(&'a str, CredentialResult)>)
    ensures
        r@.len() == server_names@.len(),
        forall|i: int| 0 <= i < r@.len() ==> (#[trigger] r@[i]).0 == server_names@[i],
{
    let backend = RealKeyring;
    check_credentials_with(server_names, &backend)
}

// ─── Unavailability classification ───────────────────────────────────────────

/// The error text, case-folded, names a missing secret-service daemon rather
/// than a transient or permission problem.
pub open spec fn spec_unavailable_error(s: Seq<char>) -> bool {
    ||| seq_contains(lower_seq(s), "platform secure storage"@)
    ||| seq_contains(lower_seq(s), "dbus"@)
    ||| seq_contains(lower_seq(s), "org.freedesktop.secrets"@)
    ||| seq_contains(lower_seq(s), "no storage access"@)
    ||| seq_contains(lower_seq(s), "secret service"@)
}

/// Whether a keyring error means the secret-service daemon is unavailable —
/// used to decide whether to offer the file-based fallback.
pub fn keyring_error_is_unavailable(err: &str) -> (b: bool)
    ensures
        b == spec_unavailable_error(err@),
{
    if str_contains_lowered(err, "platform secure storage") {
        return true;
    }
    if str_contains_lowered(err, "dbus") {
        return true;
    }
    if str_contains_lowered(err, "org.freedesktop.secrets") {
        return true;
    }
    if str_contains_lowered(err, "no storage access") {
        return true;
    }
    str_contains_lowered(err, "secret service")
}

/// The path of the file-based credential store, for display. It always ends
/// with the tool's own subpath; the base depends on the environment.
pub fn credential_file_path() -> (r: String)
    ensures
        exists|base: Seq<char>| r@ == base + "/kube_config_updater/credentials"@,
{
    FileKeyring::default_path()
}

} // verus!
