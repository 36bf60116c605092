//! The RocketMQ connection form: the stored parameters of a connection and
//! their two-way mapping to the text fields of the form.
use vstd::prelude::*;
use crate::decimal::{digits_value, is_digit, parse_unsigned, parse_unsigned_chars};
use crate::form_fields::FormFields;
use crate::host_patterns::string_views;
use crate::text::{chars_of, copy_string, owned, string_of, text_eq, trim, trim_chars};
use crate::text_build::{decimal, decimal_string, push_chars, push_decimal};

verus! {

/// A reference to credentials kept in the keychain.
#[derive(Clone, Copy, Debug, PartialEq, Eq, Structural)]
pub struct CredentialReference {
    pub id: i64,
}

impl CredentialReference {
    /// A reference to the credentials with this id.
    pub fn new(id: i64) -> (r: Self)
        ensures
            r.id == id,
    {
        CredentialReference { id }
    }
}

/// An SSH tunnel to reach the NameServers through.
#[derive(Debug, Clone, PartialEq, Eq)]
pub struct RocketmqSshTunnelConfig {
    pub enabled: bool,
    /// A stored SSH connection to reuse.
    pub connection_id: Option<i64>,
    pub host: String,
    pub port: u16,
    pub username: String,
    pub auth_type: String,
    pub password: Option<String>,
    pub private_key_path: Option<String>,
    pub private_key_content: Option<String>,
    pub private_key_passphrase: Option<String>,
    pub target_host: Option<String>,
    pub target_port: Option<u16>,
    pub timeout: Option<u64>,
}

/// The stored parameters of a RocketMQ connection.
#[derive(Debug, Clone, PartialEq, Eq)]
pub struct RocketmqParams {
    pub namesrv_addrs: Vec<String>,
    pub access_key: Option<String>,
    pub secret_key: Option<String>,
    pub credential_reference: Option<CredentialReference>,
    pub domain: Option<String>,
    /// Seconds; the runtime's default when unset.
    pub connect_timeout: Option<u64>,
    /// Milliseconds; the runtime's default when unset.
    pub request_timeout: Option<u64>,
    pub ssh_tunnel: Option<RocketmqSshTunnelConfig>,
}

/// An optional text as its view.
pub open spec fn opt_text(o: Option<String>) -> Option<Seq<char>> {
    match o {
        Some(s) => Some(s@),
        None => None,
    }
}

/// The mathematical value of an SSH tunnel.
pub struct TunnelView {
    pub enabled: bool,
    pub connection_id: Option<i64>,
    pub host: Seq<char>,
    pub port: u16,
    pub username: Seq<char>,
    pub auth_type: Seq<char>,
    pub password: Option<Seq<char>>,
    pub private_key_path: Option<Seq<char>>,
    pub private_key_content: Option<Seq<char>>,
    pub private_key_passphrase: Option<Seq<char>>,
    pub target_host: Option<Seq<char>>,
    pub target_port: Option<u16>,
    pub timeout: Option<u64>,
}

impl View for RocketmqSshTunnelConfig {
    type V = TunnelView;

    open spec fn view(&self) -> TunnelView {
        TunnelView {
            enabled: self.enabled,
            connection_id: self.connection_id,
            host: self.host@,
            port: self.port,
            username: self.username@,
            auth_type: self.auth_type@,
            password: opt_text(self.password),
            private_key_path: opt_text(self.private_key_path),
            private_key_content: opt_text(self.private_key_content),
            private_key_passphrase: opt_text(self.private_key_passphrase),
            target_host: opt_text(self.target_host),
            target_port: self.target_port,
            timeout: self.timeout,
        }
    }
}

/// The mathematical value of stored RocketMQ parameters.
pub struct ParamsView {
    pub namesrv_addrs: Seq<Seq<char>>,
    pub access_key: Option<Seq<char>>,
    pub secret_key: Option<Seq<char>>,
    pub credential_reference: Option<CredentialReference>,
    pub domain: Option<Seq<char>>,
    pub connect_timeout: Option<u64>,
    pub request_timeout: Option<u64>,
    pub ssh_tunnel: Option<TunnelView>,
}

impl View for RocketmqParams {
    type V = ParamsView;

    open spec fn view(&self) -> ParamsView {
        ParamsView {
            namesrv_addrs: string_views(self.namesrv_addrs@),
            access_key: opt_text(self.access_key),
            secret_key: opt_text(self.secret_key),
            credential_reference: self.credential_reference,
            domain: opt_text(self.domain),
            connect_timeout: self.connect_timeout,
            request_timeout: self.request_timeout,
            ssh_tunnel: match self.ssh_tunnel {
                Some(t) => Some(t@),
                None => None,
            },
        }
    }
}

impl Default for RocketmqParams {
    /// A local NameServer and nothing else.
    fn default() -> (r: Self)
        ensures
            r@.namesrv_addrs == seq!["127.0.0.1:9876"@],
            r.access_key is None,
            r.secret_key is None,
            r.credential_reference is None,
            r.domain is None,
            r.connect_timeout is None,
            r.request_timeout is None,
            r.ssh_tunnel is None,
    {
        let mut addrs: Vec<String> = Vec::new();
        addrs.push(owned("127.0.0.1:9876"));
        let r = RocketmqParams {
            namesrv_addrs: addrs,
            access_key: None,
            secret_key: None,
            credential_reference: None,
            domain: None,
            connect_timeout: None,
            request_timeout: None,
            ssh_tunnel: None,
        };
        assert(r@.namesrv_addrs =~= seq!["127.0.0.1:9876"@]);
        r
    }
}

/// What the form engine hands over: the text fields and the chosen
/// keychain credentials, if any.
pub struct FormSnapshot {
    pub fields: FormFields,
    pub credential_reference: Option<CredentialReference>,
}

impl Default for FormSnapshot {
    fn default() -> (r: Self)
        ensures
            r.fields@ == Map::<Seq<char>, Seq<char>>::empty(),
            r.credential_reference is None,
    {
        FormSnapshot { fields: FormFields::new(), credential_reference: None }
    }
}

/// A connection built from the form.
pub struct StoredRocketmqConnection {
    pub name: String,
    pub params: RocketmqParams,
    pub workspace_id: Option<i64>,
}

/// The value of a field, if the form has it.
pub open spec fn field(fields: Map<Seq<char>, Seq<char>>, name: Seq<char>) -> Option<Seq<char>> {
    if fields.contains_key(name) {
        Some(fields[name])
    } else {
        None
    }
}

/// An optional input: its trimmed text, unless that is empty.
pub open spec fn optional_text(value: Option<Seq<char>>) -> Option<Seq<char>> {
    match value {
        Some(s) => if trim(s).len() > 0 {
            Some(trim(s))
        } else {
            None
        },
        None => None,
    }
}

/// A check box: set when its text is `true` or `1`.
pub open spec fn flag_text(value: Option<Seq<char>>) -> bool {
    value == Some("true"@) || value == Some("1"@)
}

/// A number field: its trimmed text as an unsigned number up to `max`.
pub open spec fn unsigned_text(value: Option<Seq<char>>, max: nat) -> Option<nat> {
    match value {
        Some(s) => parse_unsigned(trim(s), max),
        None => None,
    }
}

/// The value of a signed decimal literal in the range of `i64`, as
/// `str::parse::<i64>` reads it: an optional sign, then digits.
pub open spec fn parse_signed(s: Seq<char>) -> Option<int> {
    if s.len() > 0 && s[0] == '-' {
        let d = s.drop_first();
        if d.len() > 0 && (forall|i: int| 0 <= i < d.len() ==> is_digit(d[i])) && digits_value(d)
            <= 0x8000_0000_0000_0000 {
            Some(-digits_value(d))
        } else {
            None
        }
    } else {
        match parse_unsigned(s, 0x7fff_ffff_ffff_ffff) {
            Some(v) => Some(v as int),
            None => None,
        }
    }
}

/// A signed number field: its trimmed text as an `i64`.
pub open spec fn signed_text(value: Option<Seq<char>>) -> Option<int> {
    match value {
        Some(s) => parse_signed(trim(s)),
        None => None,
    }
}

/// Whether a character separates NameServer addresses.
pub open spec fn is_separator(c: char) -> bool {
    c == '\n' || c == ';' || c == ','
}

/// The pieces of a text between separators, empty ones included.
pub open spec fn pieces(raw: Seq<char>) -> Seq<Seq<char>>
    decreases raw.len(),
{
    if raw.len() == 0 {
        seq![Seq::empty()]
    } else {
        let p = pieces(raw.drop_last());
        if is_separator(raw.last()) {
            p.push(Seq::empty())
        } else {
            p.update(p.len() - 1, p.last().push(raw.last()))
        }
    }
}

/// The trimmed pieces that are not empty, in order.
pub open spec fn kept_pieces(ps: Seq<Seq<char>>) -> Seq<Seq<char>>
    decreases ps.len(),
{
    if ps.len() == 0 {
        Seq::empty()
    } else {
        let r = kept_pieces(ps.drop_last());
        if trim(ps.last()).len() > 0 {
            r.push(trim(ps.last()))
        } else {
            r
        }
    }
}

/// The NameServer addresses of a multi-valued input: split at line
/// breaks, semicolons and commas, trimmed, empty ones dropped.
pub open spec fn addresses(raw: Seq<char>) -> Seq<Seq<char>> {
    kept_pieces(pieces(raw))
}

/// Addresses written one per line.
pub open spec fn joined_lines(addrs: Seq<Seq<char>>) -> Seq<char>
    decreases addrs.len(),
{
    if addrs.len() == 0 {
        Seq::empty()
    } else if addrs.len() == 1 {
        addrs[0]
    } else {
        joined_lines(addrs.drop_last()).push('\n') + addrs.last()
    }
}

/// The text of a signed number.
pub open spec fn signed_decimal(v: int) -> Seq<char> {
    if v < 0 {
        seq!['-'] + decimal((-v) as nat)
    } else {
        decimal(v as nat)
    }
}

/// An optional text, empty when unset.
pub open spec fn text_or_empty(o: Option<Seq<char>>) -> Seq<char> {
    match o {
        Some(s) => s,
        None => Seq::empty(),
    }
}

/// An optional number as text, empty when unset.
pub open spec fn number_or_empty(o: Option<nat>) -> Seq<char> {
    match o {
        Some(n) => decimal(n),
        None => Seq::empty(),
    }
}

/// The fields of an SSH tunnel, added to the form's other fields.
pub open spec fn tunnel_fields(m: Map<Seq<char>, Seq<char>>, t: TunnelView) -> Map<Seq<char>, Seq<char>> {
    m.insert("ssh_tunnel_enabled"@, if t.enabled {
        "true"@
    } else {
        "false"@
    }).insert(
        "ssh_connection_id"@,
        match t.connection_id {
            Some(id) => signed_decimal(id as int),
            None => Seq::empty(),
        },
    ).insert("ssh_host"@, t.host).insert("ssh_port"@, decimal(t.port as nat)).insert(
        "ssh_username"@,
        t.username,
    ).insert("ssh_auth_type"@, t.auth_type).insert("ssh_password"@, text_or_empty(t.password)).insert(
        "ssh_private_key_path"@,
        text_or_empty(t.private_key_path),
    ).insert("ssh_private_key_content"@, text_or_empty(t.private_key_content)).insert(
        "ssh_private_key_passphrase"@,
        text_or_empty(t.private_key_passphrase),
    ).insert("ssh_target_host"@, text_or_empty(t.target_host)).insert(
        "ssh_target_port"@,
        match t.target_port {
            Some(p) => decimal(p as nat),
            None => Seq::empty(),
        },
    )
}

/// The form fields of stored parameters.
pub open spec fn loaded_fields(p: ParamsView) -> Map<Seq<char>, Seq<char>> {
    let m = Map::<Seq<char>, Seq<char>>::empty().insert(
        "namesrv_addrs"@,
        joined_lines(p.namesrv_addrs),
    ).insert("access_key"@, text_or_empty(p.access_key)).insert(
        "secret_key"@,
        text_or_empty(p.secret_key),
    ).insert("domain"@, text_or_empty(p.domain)).insert(
        "connect_timeout"@,
        number_or_empty(
            match p.connect_timeout {
                Some(t) => Some(t as nat),
                None => None,
            },
        ),
    ).insert(
        "request_timeout"@,
        number_or_empty(
            match p.request_timeout {
                Some(t) => Some(t as nat),
                None => None,
            },
        ),
    );
    match p.ssh_tunnel {
        Some(t) => tunnel_fields(m, t),
        None => m,
    }
}

/// The SSH tunnel of a form, when its check box is set; the port defaults
/// to 22 and the authentication to a password.
pub open spec fn built_tunnel(m: Map<Seq<char>, Seq<char>>) -> Option<TunnelView> {
    if flag_text(field(m, "ssh_tunnel_enabled"@)) {
        Some(
            TunnelView {
                enabled: true,
                connection_id: match signed_text(field(m, "ssh_connection_id"@)) {
                    Some(v) => Some(v as i64),
                    None => None,
                },
                host: text_or_empty(field(m, "ssh_host"@)),
                port: match unsigned_text(field(m, "ssh_port"@), 0xffff) {
                    Some(v) => v as u16,
                    None => 22,
                },
                username: text_or_empty(field(m, "ssh_username"@)),
                auth_type: match field(m, "ssh_auth_type"@) {
                    Some(a) => a,
                    None => "password"@,
                },
                password: optional_text(field(m, "ssh_password"@)),
                private_key_path: optional_text(field(m, "ssh_private_key_path"@)),
                private_key_content: optional_text(field(m, "ssh_private_key_content"@)),
                private_key_passphrase: optional_text(field(m, "ssh_private_key_passphrase"@)),
                target_host: optional_text(field(m, "ssh_target_host"@)),
                target_port: match unsigned_text(field(m, "ssh_target_port"@), 0xffff) {
                    Some(v) => Some(v as u16),
                    None => None,
                },
                timeout: None,
            },
        )
    } else {
        None
    }
}

/// The parameters a form describes, when it names at least one NameServer.
/// Chosen keychain credentials replace the manual ACL keys.
pub open spec fn built_params(m: Map<Seq<char>, Seq<char>>, credential: Option<CredentialReference>) -> Option<
    ParamsView,
> {
    let addrs = addresses(text_or_empty(field(m, "namesrv_addrs"@)));
    if addrs.len() == 0 {
        None
    } else {
        Some(
            ParamsView {
                namesrv_addrs: addrs,
                access_key: if credential is Some {
                    None
                } else {
                    optional_text(field(m, "access_key"@))
                },
                secret_key: if credential is Some {
                    None
                } else {
                    optional_text(field(m, "secret_key"@))
                },
                credential_reference: credential,
                domain: optional_text(field(m, "domain"@)),
                connect_timeout: match unsigned_text(field(m, "connect_timeout"@), u64::MAX as nat) {
                    Some(v) => Some(v as u64),
                    None => None,
                },
                request_timeout: match unsigned_text(field(m, "request_timeout"@), u64::MAX as nat) {
                    Some(v) => Some(v as u64),
                    None => None,
                },
                ssh_tunnel: built_tunnel(m),
            },
        )
    }
}

/// An optional input: its trimmed text, unless that is empty.
pub fn optional_input(value: Option<&String>) -> (r: Option<String>)
    ensures
        opt_text(r) == optional_text(
            match value {
                Some(s) => Some(s@),
                None => None,
            },
        ),
{
    match value {
        Some(s) => {
            let chars = chars_of(s.as_str());
            let t = trim_chars(chars.as_slice());
            if t.len() > 0 {
                Some(string_of(t.as_slice()))
            } else {
                None
            }
        },
        None => None,
    }
}

/// Whether a check-box field is set.
pub fn bool_field(fields: &FormFields, name: &str) -> (r: bool)
    ensures
        r == flag_text(field(fields@, name@)),
{
    match fields.get(name) {
        Some(value) => text_eq(value.as_str(), "true") || text_eq(value.as_str(), "1"),
        None => false,
    }
}

/// A number field, as an unsigned number up to `max`.
pub fn number_field(fields: &FormFields, name: &str, max: u64) -> (r: Option<u64>)
    ensures
        match unsigned_text(field(fields@, name@), max as nat) {
            Some(v) => r == Some(v as u64),
            None => r is None,
        },
{
    match fields.get(name) {
        Some(value) => {
            let chars = chars_of(value.as_str());
            let t = trim_chars(chars.as_slice());
            parse_unsigned_chars(t.as_slice(), max)
        },
        None => None,
    }
}

/// Parses a signed decimal literal in the range of `i64`.
pub fn parse_signed_chars(s: &[char]) -> (r: Option<i64>)
    ensures
        match parse_signed(s@) {
            Some(v) => r == Some(v as i64),
            None => r is None,
        },
{
    if s.len() > 0 && s[0] == '-' {
        let digits = crate::text::slice_range(s, 1, s.len());
        assert(digits@ =~= s@.drop_first());
        if digits.len() == 0 || digits[0] == '+' {
            assert(digits@.len() > 0 ==> !is_digit(digits@[0]));
            return None;
        }
        match parse_unsigned_chars(digits.as_slice(), 0x8000_0000_0000_0000) {
            Some(v) => {
                if v == 0x8000_0000_0000_0000 {
                    Some(-0x8000_0000_0000_0000i64)
                } else {
                    let magnitude: i64 = v as i64;
                    Some(-magnitude)
                }
            },
            None => None,
        }
    } else {
        match parse_unsigned_chars(s, 0x7fff_ffff_ffff_ffff) {
            Some(v) => Some(v as i64),
            None => None,
        }
    }
}

/// A signed number field.
pub fn signed_number_field(fields: &FormFields, name: &str) -> (r: Option<i64>)
    ensures
        match signed_text(field(fields@, name@)) {
            Some(v) => r == Some(v as i64),
            None => r is None,
        },
{
    match fields.get(name) {
        Some(value) => {
            let chars = chars_of(value.as_str());
            let t = trim_chars(chars.as_slice());
            parse_signed_chars(t.as_slice())
        },
        None => None,
    }
}

/// A field's text, empty when the form lacks it.
fn text_field(fields: &FormFields, name: &str) -> (r: String)
    ensures
        r@ == text_or_empty(field(fields@, name@)),
{
    match fields.get(name) {
        Some(value) => copy_string(value),
        None => String::new(),
    }
}

/// Every piece has at least the one it starts with.
proof fn lemma_pieces_nonempty(raw: Seq<char>)
    ensures
        pieces(raw).len() >= 1,
    decreases raw.len(),
{
    if raw.len() > 0 {
        lemma_pieces_nonempty(raw.drop_last());
    }
}

/// Appends the trimmed piece when it is not empty.
fn keep_piece(out: &mut Vec<String>, piece: &Vec<char>)
    ensures
        string_views(final(out)@) == (if trim(piece@).len() > 0 {
            string_views(old(out)@).push(trim(piece@))
        } else {
            string_views(old(out)@)
        }),
{
    let t = trim_chars(piece.as_slice());
    if t.len() > 0 {
        let ghost before = string_views(out@);
        out.push(string_of(t.as_slice()));
        assert(string_views(out@) =~= before.push(trim(piece@)));
    }
}

/// Parses the NameServer addresses of a multi-valued input: split at line
/// breaks, semicolons and commas, trimmed, empty ones dropped.
pub fn parse_namesrv_addrs(raw: &str) -> (r: Vec<String>)
    ensures
        string_views(r@) == addresses(raw@),
{
    let chars = chars_of(raw);
    let mut out: Vec<String> = Vec::new();
    let mut piece: Vec<char> = Vec::new();
    let mut i: usize = 0;
    assert(chars@.subrange(0, 0) =~= Seq::<char>::empty());
    assert(string_views(out@) =~= Seq::<Seq<char>>::empty());
    while i < chars.len()
        invariant
            i <= chars@.len(),
            chars@ == raw@,
            pieces(chars@.subrange(0, i as int)).len() >= 1,
            piece@ == pieces(chars@.subrange(0, i as int)).last(),
            string_views(out@) == kept_pieces(pieces(chars@.subrange(0, i as int)).drop_last()),
        decreases chars.len() - i,
    {
        let ghost prefix = chars@.subrange(0, i as int);
        let ghost next = chars@.subrange(0, i + 1);
        assert(next.drop_last() =~= prefix);
        let c = chars[i];
        assert(next.last() == c);
        let ghost p = pieces(prefix);
        if c == '\n' || c == ';' || c == ',' {
            assert(pieces(next) == p.push(Seq::<char>::empty()));
            assert(pieces(next).drop_last() =~= p);
            assert(p == p.drop_last().push(p.last()));
            keep_piece(&mut out, &piece);
            piece = Vec::new();
            assert(piece@ =~= Seq::<char>::empty());
        } else {
            assert(pieces(next) == p.update(p.len() - 1, p.last().push(c)));
            assert(pieces(next).drop_last() =~= p.drop_last());
            piece.push(c);
        }
        i = i + 1;
    }
    assert(chars@.subrange(0, chars@.len() as int) =~= chars@);
    let ghost p = pieces(chars@);
    assert(p == p.drop_last().push(p.last()));
    keep_piece(&mut out, &piece);
    out
}

/// Writes NameServer addresses one per line, to fill the form back in.
pub fn format_namesrv_addrs(addrs: &[String]) -> (r: String)
    ensures
        r@ == joined_lines(string_views(addrs@)),
{
    let ghost views = string_views(addrs@);
    let mut text: Vec<char> = Vec::new();
    let mut i: usize = 0;
    assert(views.subrange(0, 0) =~= Seq::<Seq<char>>::empty());
    while i < addrs.len()
        invariant
            i <= addrs@.len(),
            views == string_views(addrs@),
            text@ == joined_lines(views.subrange(0, i as int)),
        decreases addrs.len() - i,
    {
        let ghost prefix = views.subrange(0, i as int);
        let ghost next = views.subrange(0, i + 1);
        assert(next.drop_last() =~= prefix);
        assert(next.last() == addrs@[i as int]@);
        if i > 0 {
            text.push('\n');
        }
        let piece = chars_of(addrs[i].as_str());
        push_chars(&mut text, piece.as_slice());
        if i == 0 {
            assert(text@ =~= joined_lines(next));
        }
        i = i + 1;
    }
    assert(views.subrange(0, addrs@.len() as int) =~= views);
    string_of(text.as_slice())
}

/// The decimal text of a signed number.
pub fn signed_decimal_string(v: i64) -> (r: String)
    ensures
        r@ == signed_decimal(v as int),
{
    if v < 0 {
        let magnitude: u64 = if v == i64::MIN {
            0x8000_0000_0000_0000
        } else {
            (-v) as u64
        };
        let mut text: Vec<char> = Vec::new();
        text.push('-');
        push_decimal(&mut text, magnitude);
        assert(text@ =~= seq!['-'] + decimal((-v) as nat));
        string_of(text.as_slice())
    } else {
        decimal_string(v as u64)
    }
}

/// An optional text, empty when unset.
fn owned_or_empty(o: &Option<String>) -> (r: String)
    ensures
        r@ == text_or_empty(opt_text(*o)),
{
    match o {
        Some(s) => copy_string(s),
        None => String::new(),
    }
}

/// An optional number as text, empty when unset.
fn number_or_blank(o: Option<u64>) -> (r: String)
    ensures
        r@ == number_or_empty(
            match o {
                Some(n) => Some(n as nat),
                None => None,
            },
        ),
{
    match o {
        Some(n) => decimal_string(n),
        None => String::new(),
    }
}

/// A digit's character reads back as the digit.
proof fn lemma_digit_char(d: nat)
    requires
        d < 10,
    ensures
        is_digit(crate::text_build::digit_char(d)),
        crate::decimal::digit_value(crate::text_build::digit_char(d)) == d,
        !crate::text::is_ws(crate::text_build::digit_char(d)),
        crate::text_build::digit_char(d) != '+',
        crate::text_build::digit_char(d) != '-',
{
}

/// The decimal text of a number is digits only, reads back as the number,
/// and does not start with a sign.
proof fn lemma_decimal_digits(n: nat)
    ensures
        decimal(n).len() > 0,
        forall|i: int| 0 <= i < decimal(n).len() ==> is_digit(#[trigger] decimal(n)[i]),
        digits_value(decimal(n)) == n,
    decreases n,
{
    if n < 10 {
        lemma_digit_char(n);
        assert(decimal(n).drop_last() =~= Seq::<char>::empty());
        assert(digits_value(Seq::<char>::empty()) == 0);
        assert(digits_value(decimal(n)) == digits_value(decimal(n).drop_last()) * 10
            + crate::decimal::digit_value(decimal(n).last()));
    } else {
        lemma_decimal_digits(n / 10);
        lemma_digit_char(n % 10);
        let d = decimal(n);
        assert(d.drop_last() =~= decimal(n / 10));
        assert(d.last() == crate::text_build::digit_char(n % 10));
        assert((n / 10) * 10 + n % 10 == n) by (nonlinear_arith);
        assert(digits_value(d) == digits_value(d.drop_last()) * 10 + crate::decimal::digit_value(
            d.last(),
        ));
        assert forall|i: int| 0 <= i < d.len() implies is_digit(#[trigger] d[i]) by {
            if i < d.len() - 1 {
                assert(d[i] == decimal(n / 10)[i]);
            }
        }
    }
}

/// A text that starts and ends with something other than whitespace is its
/// own trimmed text.
proof fn lemma_trim_plain(s: Seq<char>)
    requires
        s.len() > 0,
        !crate::text::is_ws(s[0]),
        !crate::text::is_ws(s.last()),
    ensures
        trim(s) == s,
{
    assert(crate::text::trim_start(s) == s);
}

/// An empty text trims to itself.
proof fn lemma_trim_empty()
    ensures
        trim(Seq::<char>::empty()).len() == 0,
{
    assert(crate::text::trim_start(Seq::<char>::empty()) == Seq::<char>::empty());
    assert(crate::text::trim_end(Seq::<char>::empty()) == Seq::<char>::empty());
}

/// The decimal text of a number up to `max` reads back as the number.
proof fn lemma_unsigned_round_trip(n: nat, max: nat)
    requires
        n <= max,
    ensures
        unsigned_text(Some(decimal(n)), max) == Some(n),
        trim(decimal(n)) == decimal(n),
{
    lemma_decimal_digits(n);
    let d = decimal(n);
    assert(is_digit(d[0]) && is_digit(d.last()));
    lemma_trim_plain(d);
    assert(crate::decimal::unsigned_digits(d) == d);
}

/// The decimal text of an `i64` reads back as the number.
proof fn lemma_signed_round_trip(v: i64)
    ensures
        signed_text(Some(signed_decimal(v as int))) == Some(v as int),
{
    let s = signed_decimal(v as int);
    if v < 0 {
        let m = (-v) as nat;
        lemma_decimal_digits(m);
        let d = decimal(m);
        assert(is_digit(d.last()));
        assert(s.last() == d.last());
        lemma_trim_plain(s);
        assert(s.drop_first() =~= d);
    } else {
        lemma_unsigned_round_trip(v as nat, 0x7fff_ffff_ffff_ffff);
        lemma_decimal_digits(v as nat);
        assert(is_digit(s[0]));
    }
}

/// Whether an optional text shows in the form exactly: unset, or a
/// non-empty text without surrounding whitespace.
pub open spec fn exact_text(o: Option<Seq<char>>) -> bool {
    o matches Some(s) ==> s.len() > 0 && trim(s) == s
}

/// An exact optional text reads back as itself.
proof fn lemma_optional_round_trip(o: Option<Seq<char>>)
    requires
        exact_text(o),
    ensures
        optional_text(Some(text_or_empty(o))) == o,
{
    if o is None {
        lemma_trim_empty();
    }
}

/// An optional number reads back as itself.
proof fn lemma_number_round_trip(o: Option<nat>, max: nat)
    requires
        o matches Some(n) ==> n <= max,
    ensures
        unsigned_text(Some(number_or_empty(o)), max) == o,
{
    match o {
        Some(n) => lemma_unsigned_round_trip(n, max),
        None => {
            lemma_trim_empty();
        },
    }
}

/// Whether an address shows in the form exactly: not empty, without
/// surrounding whitespace, and without separators.
pub open spec fn plain_address(a: Seq<char>) -> bool {
    &&& a.len() > 0
    &&& trim(a) == a
    &&& forall|j: int| 0 <= j < a.len() ==> !is_separator(#[trigger] a[j])
}

/// Appending text without separators extends the last piece.
proof fn lemma_pieces_append_plain(s: Seq<char>, t: Seq<char>)
    requires
        forall|j: int| 0 <= j < t.len() ==> !is_separator(#[trigger] t[j]),
    ensures
        pieces(s + t) == pieces(s).update(pieces(s).len() - 1, pieces(s).last() + t),
        pieces(s).len() >= 1,
    decreases t.len(),
{
    lemma_pieces_nonempty(s);
    if t.len() == 0 {
        assert(s + t =~= s);
        assert(pieces(s).last() + t =~= pieces(s).last());
        assert(pieces(s).update(pieces(s).len() - 1, pieces(s).last()) =~= pieces(s));
    } else {
        let t0 = t.drop_last();
        lemma_pieces_append_plain(s, t0);
        assert((s + t).drop_last() =~= s + t0);
        assert((s + t).last() == t.last());
        assert(!is_separator(t.last()));
        let p0 = pieces(s + t0);
        assert(pieces(s + t) == p0.update(p0.len() - 1, p0.last().push(t.last())));
        assert(pieces(s).last() + t0 + seq![t.last()] =~= pieces(s).last() + t);
        assert(p0.len() == pieces(s).len());
        assert(p0.last() == pieces(s).last() + t0);
        assert((pieces(s).last() + t0).push(t.last()) =~= pieces(s).last() + t);
        assert(p0.update(p0.len() - 1, p0.last().push(t.last())) =~= pieces(s).update(
            pieces(s).len() - 1,
            pieces(s).last() + t,
        ));
    }
}

/// Addresses written one per line split back into their lines.
proof fn lemma_pieces_of_joined(addrs: Seq<Seq<char>>)
    requires
        addrs.len() > 0,
        forall|i: int| 0 <= i < addrs.len() ==> plain_address(#[trigger] addrs[i]),
    ensures
        pieces(joined_lines(addrs)) == addrs,
    decreases addrs.len(),
{
    if addrs.len() == 1 {
        assert(plain_address(addrs[0]));
        lemma_pieces_append_plain(Seq::empty(), addrs[0]);
        assert(Seq::<char>::empty() + addrs[0] =~= addrs[0]);
        assert(pieces(Seq::<char>::empty()) == seq![Seq::<char>::empty()]);
        assert(Seq::<char>::empty() + addrs[0] =~= addrs[0]);
        assert(seq![Seq::<char>::empty()].update(0, addrs[0]) =~= addrs);
    } else {
        let init = addrs.drop_last();
        assert forall|i: int| 0 <= i < init.len() implies plain_address(#[trigger] init[i]) by {
            assert(init[i] == addrs[i]);
        }
        lemma_pieces_of_joined(init);
        let head = joined_lines(init).push('\n');
        assert(head.drop_last() =~= joined_lines(init));
        assert(pieces(head) == init.push(Seq::<char>::empty()));
        assert(plain_address(addrs.last()));
        lemma_pieces_append_plain(head, addrs.last());
        assert(Seq::<char>::empty() + addrs.last() =~= addrs.last());
        assert(init.push(Seq::<char>::empty()).update(init.len() as int, addrs.last()) =~= addrs);
    }
}

/// Pieces that are all plain addresses are kept as they are.
proof fn lemma_kept_plain(ps: Seq<Seq<char>>)
    requires
        forall|i: int| 0 <= i < ps.len() ==> plain_address(#[trigger] ps[i]),
    ensures
        kept_pieces(ps) == ps,
    decreases ps.len(),
{
    if ps.len() > 0 {
        let init = ps.drop_last();
        assert forall|i: int| 0 <= i < init.len() implies plain_address(#[trigger] init[i]) by {
            assert(init[i] == ps[i]);
        }
        lemma_kept_plain(init);
        assert(plain_address(ps.last()));
        assert(init.push(ps.last()) =~= ps);
    }
}

/// NameServer addresses written one per line read back as themselves.
pub proof fn law_addresses_round_trip(addrs: Seq<Seq<char>>)
    requires
        forall|i: int| 0 <= i < addrs.len() ==> plain_address(#[trigger] addrs[i]),
    ensures
        addresses(joined_lines(addrs)) == addrs,
{
    if addrs.len() == 0 {
        lemma_trim_empty();
        assert(pieces(Seq::<char>::empty()) == seq![Seq::<char>::empty()]);
        assert(kept_pieces(seq![Seq::<char>::empty()]) =~= Seq::<Seq<char>>::empty()) by {
            lemma_trim_empty();
            assert(seq![Seq::<char>::empty()].drop_last() =~= Seq::<Seq<char>>::empty());
            assert(kept_pieces(Seq::<Seq<char>>::empty()) == Seq::<Seq<char>>::empty());
        }
    } else {
        lemma_pieces_of_joined(addrs);
        lemma_kept_plain(addrs);
    }
}

/// Whether stored parameters show in the form exactly: plain NameServer
/// addresses, texts without surrounding whitespace, no manual keys beside
/// keychain credentials, and an enabled tunnel without a timeout.
pub open spec fn form_exact(p: ParamsView) -> bool {
    &&& p.namesrv_addrs.len() > 0
    &&& forall|i: int|
        0 <= i < p.namesrv_addrs.len() ==> plain_address(#[trigger] p.namesrv_addrs[i])
    &&& exact_text(p.access_key)
    &&& exact_text(p.secret_key)
    &&& exact_text(p.domain)
    &&& p.credential_reference is Some ==> p.access_key is None && p.secret_key is None
    &&& p.ssh_tunnel matches Some(t) ==> {
        &&& t.enabled
        &&& exact_text(t.password)
        &&& exact_text(t.private_key_path)
        &&& exact_text(t.private_key_content)
        &&& exact_text(t.private_key_passphrase)
        &&& exact_text(t.target_host)
        &&& t.timeout is None
    }
}

/// The names of the connection fields are distinct.
proof fn lemma_base_names_distinct()
    ensures
        "namesrv_addrs"@ != "access_key"@,
        "namesrv_addrs"@ != "secret_key"@,
        "namesrv_addrs"@ != "domain"@,
        "namesrv_addrs"@ != "connect_timeout"@,
        "namesrv_addrs"@ != "request_timeout"@,
        "access_key"@ != "secret_key"@,
        "access_key"@ != "domain"@,
        "access_key"@ != "connect_timeout"@,
        "access_key"@ != "request_timeout"@,
        "secret_key"@ != "domain"@,
        "secret_key"@ != "connect_timeout"@,
        "secret_key"@ != "request_timeout"@,
        "domain"@ != "connect_timeout"@,
        "domain"@ != "request_timeout"@,
        "connect_timeout"@ != "request_timeout"@,
{
    reveal_strlit("namesrv_addrs");
    reveal_strlit("access_key");
    reveal_strlit("secret_key");
    reveal_strlit("domain");
    reveal_strlit("connect_timeout");
    reveal_strlit("request_timeout");
    assert("access_key"@.len() == 10);
    assert("connect_timeout"@.len() == 15);
    assert("domain"@.len() == 6);
    assert("namesrv_addrs"@.len() == 13);
    assert("request_timeout"@.len() == 15);
    assert("secret_key"@.len() == 10);
    assert("access_key"@[0] == 'a' && "secret_key"@[0] == 's');
    assert("connect_timeout"@[0] == 'c' && "request_timeout"@[0] == 'r');
}

/// The names of the tunnel fields are distinct.
proof fn lemma_tunnel_names_distinct()
    ensures
        "ssh_tunnel_enabled"@ != "ssh_connection_id"@,
        "ssh_tunnel_enabled"@ != "ssh_host"@,
        "ssh_tunnel_enabled"@ != "ssh_port"@,
        "ssh_tunnel_enabled"@ != "ssh_username"@,
        "ssh_tunnel_enabled"@ != "ssh_auth_type"@,
        "ssh_tunnel_enabled"@ != "ssh_password"@,
        "ssh_tunnel_enabled"@ != "ssh_private_key_path"@,
        "ssh_tunnel_enabled"@ != "ssh_private_key_content"@,
        "ssh_tunnel_enabled"@ != "ssh_private_key_passphrase"@,
        "ssh_tunnel_enabled"@ != "ssh_target_host"@,
        "ssh_tunnel_enabled"@ != "ssh_target_port"@,
        "ssh_connection_id"@ != "ssh_host"@,
        "ssh_connection_id"@ != "ssh_port"@,
        "ssh_connection_id"@ != "ssh_username"@,
        "ssh_connection_id"@ != "ssh_auth_type"@,
        "ssh_connection_id"@ != "ssh_password"@,
        "ssh_connection_id"@ != "ssh_private_key_path"@,
        "ssh_connection_id"@ != "ssh_private_key_content"@,
        "ssh_connection_id"@ != "ssh_private_key_passphrase"@,
        "ssh_connection_id"@ != "ssh_target_host"@,
        "ssh_connection_id"@ != "ssh_target_port"@,
        "ssh_host"@ != "ssh_port"@,
        "ssh_host"@ != "ssh_username"@,
        "ssh_host"@ != "ssh_auth_type"@,
        "ssh_host"@ != "ssh_password"@,
        "ssh_host"@ != "ssh_private_key_path"@,
        "ssh_host"@ != "ssh_private_key_content"@,
        "ssh_host"@ != "ssh_private_key_passphrase"@,
        "ssh_host"@ != "ssh_target_host"@,
        "ssh_host"@ != "ssh_target_port"@,
        "ssh_port"@ != "ssh_username"@,
        "ssh_port"@ != "ssh_auth_type"@,
        "ssh_port"@ != "ssh_password"@,
{
    reveal_strlit("ssh_tunnel_enabled");
    reveal_strlit("ssh_connection_id");
    reveal_strlit("ssh_host");
    reveal_strlit("ssh_port");
    reveal_strlit("ssh_username");
    reveal_strlit("ssh_auth_type");
    reveal_strlit("ssh_password");
    reveal_strlit("ssh_private_key_path");
    reveal_strlit("ssh_private_key_content");
    reveal_strlit("ssh_private_key_passphrase");
    reveal_strlit("ssh_target_host");
    reveal_strlit("ssh_target_port");
    assert("ssh_auth_type"@.len() == 13);
    assert("ssh_connection_id"@.len() == 17);
    assert("ssh_host"@.len() == 8);
    assert("ssh_password"@.len() == 12);
    assert("ssh_port"@.len() == 8);
    assert("ssh_private_key_content"@.len() == 23);
    assert("ssh_private_key_passphrase"@.len() == 26);
    assert("ssh_private_key_path"@.len() == 20);
    assert("ssh_target_host"@.len() == 15);
    assert("ssh_target_port"@.len() == 15);
    assert("ssh_tunnel_enabled"@.len() == 18);
    assert("ssh_username"@.len() == 12);
    assert("ssh_host"@[4] == 'h' && "ssh_port"@[4] == 'p');
}

/// The names of the tunnel fields are distinct (continued).
proof fn lemma_tunnel_names_distinct_more()
    ensures
        "ssh_port"@ != "ssh_private_key_path"@,
        "ssh_port"@ != "ssh_private_key_content"@,
        "ssh_port"@ != "ssh_private_key_passphrase"@,
        "ssh_port"@ != "ssh_target_host"@,
        "ssh_port"@ != "ssh_target_port"@,
        "ssh_username"@ != "ssh_auth_type"@,
        "ssh_username"@ != "ssh_password"@,
        "ssh_username"@ != "ssh_private_key_path"@,
        "ssh_username"@ != "ssh_private_key_content"@,
        "ssh_username"@ != "ssh_private_key_passphrase"@,
        "ssh_username"@ != "ssh_target_host"@,
        "ssh_username"@ != "ssh_target_port"@,
        "ssh_auth_type"@ != "ssh_password"@,
        "ssh_auth_type"@ != "ssh_private_key_path"@,
        "ssh_auth_type"@ != "ssh_private_key_content"@,
        "ssh_auth_type"@ != "ssh_private_key_passphrase"@,
        "ssh_auth_type"@ != "ssh_target_host"@,
        "ssh_auth_type"@ != "ssh_target_port"@,
        "ssh_password"@ != "ssh_private_key_path"@,
        "ssh_password"@ != "ssh_private_key_content"@,
        "ssh_password"@ != "ssh_private_key_passphrase"@,
        "ssh_password"@ != "ssh_target_host"@,
        "ssh_password"@ != "ssh_target_port"@,
        "ssh_private_key_path"@ != "ssh_private_key_content"@,
        "ssh_private_key_path"@ != "ssh_private_key_passphrase"@,
        "ssh_private_key_path"@ != "ssh_target_host"@,
        "ssh_private_key_path"@ != "ssh_target_port"@,
        "ssh_private_key_content"@ != "ssh_private_key_passphrase"@,
        "ssh_private_key_content"@ != "ssh_target_host"@,
        "ssh_private_key_content"@ != "ssh_target_port"@,
        "ssh_private_key_passphrase"@ != "ssh_target_host"@,
        "ssh_private_key_passphrase"@ != "ssh_target_port"@,
        "ssh_target_host"@ != "ssh_target_port"@,
{
    reveal_strlit("ssh_port");
    reveal_strlit("ssh_username");
    reveal_strlit("ssh_auth_type");
    reveal_strlit("ssh_password");
    reveal_strlit("ssh_private_key_path");
    reveal_strlit("ssh_private_key_content");
    reveal_strlit("ssh_private_key_passphrase");
    reveal_strlit("ssh_target_host");
    reveal_strlit("ssh_target_port");
    assert("ssh_auth_type"@.len() == 13);
    assert("ssh_password"@.len() == 12);
    assert("ssh_port"@.len() == 8);
    assert("ssh_private_key_content"@.len() == 23);
    assert("ssh_private_key_passphrase"@.len() == 26);
    assert("ssh_private_key_path"@.len() == 20);
    assert("ssh_target_host"@.len() == 15);
    assert("ssh_target_port"@.len() == 15);
    assert("ssh_username"@.len() == 12);
    assert("ssh_username"@[4] == 'u' && "ssh_password"@[4] == 'p');
    assert("ssh_target_host"@[11] == 'h' && "ssh_target_port"@[11] == 'p');
}

/// `namesrv_addrs` is not the name of a tunnel field.
proof fn lemma_namesrv_addrs_not_a_tunnel_name()
    ensures
        "namesrv_addrs"@ != "ssh_tunnel_enabled"@,
        "namesrv_addrs"@ != "ssh_connection_id"@,
        "namesrv_addrs"@ != "ssh_host"@,
        "namesrv_addrs"@ != "ssh_port"@,
        "namesrv_addrs"@ != "ssh_username"@,
        "namesrv_addrs"@ != "ssh_auth_type"@,
        "namesrv_addrs"@ != "ssh_password"@,
        "namesrv_addrs"@ != "ssh_private_key_path"@,
        "namesrv_addrs"@ != "ssh_private_key_content"@,
        "namesrv_addrs"@ != "ssh_private_key_passphrase"@,
        "namesrv_addrs"@ != "ssh_target_host"@,
        "namesrv_addrs"@ != "ssh_target_port"@,
{
    reveal_strlit("namesrv_addrs");
    reveal_strlit("ssh_tunnel_enabled");
    reveal_strlit("ssh_connection_id");
    reveal_strlit("ssh_host");
    reveal_strlit("ssh_port");
    reveal_strlit("ssh_username");
    reveal_strlit("ssh_auth_type");
    reveal_strlit("ssh_password");
    reveal_strlit("ssh_private_key_path");
    reveal_strlit("ssh_private_key_content");
    reveal_strlit("ssh_private_key_passphrase");
    reveal_strlit("ssh_target_host");
    reveal_strlit("ssh_target_port");
    assert("namesrv_addrs"@.len() == 13);
    assert("ssh_auth_type"@.len() == 13);
    assert("ssh_connection_id"@.len() == 17);
    assert("ssh_host"@.len() == 8);
    assert("ssh_password"@.len() == 12);
    assert("ssh_port"@.len() == 8);
    assert("ssh_private_key_content"@.len() == 23);
    assert("ssh_private_key_passphrase"@.len() == 26);
    assert("ssh_private_key_path"@.len() == 20);
    assert("ssh_target_host"@.len() == 15);
    assert("ssh_target_port"@.len() == 15);
    assert("ssh_tunnel_enabled"@.len() == 18);
    assert("ssh_username"@.len() == 12);
    assert("namesrv_addrs"@[0] == 'n' && "ssh_auth_type"@[0] == 's');
}

/// `access_key` is not the name of a tunnel field.
proof fn lemma_access_key_not_a_tunnel_name()
    ensures
        "access_key"@ != "ssh_tunnel_enabled"@,
        "access_key"@ != "ssh_connection_id"@,
        "access_key"@ != "ssh_host"@,
        "access_key"@ != "ssh_port"@,
        "access_key"@ != "ssh_username"@,
        "access_key"@ != "ssh_auth_type"@,
        "access_key"@ != "ssh_password"@,
        "access_key"@ != "ssh_private_key_path"@,
        "access_key"@ != "ssh_private_key_content"@,
        "access_key"@ != "ssh_private_key_passphrase"@,
        "access_key"@ != "ssh_target_host"@,
        "access_key"@ != "ssh_target_port"@,
{
    reveal_strlit("access_key");
    reveal_strlit("ssh_tunnel_enabled");
    reveal_strlit("ssh_connection_id");
    reveal_strlit("ssh_host");
    reveal_strlit("ssh_port");
    reveal_strlit("ssh_username");
    reveal_strlit("ssh_auth_type");
    reveal_strlit("ssh_password");
    reveal_strlit("ssh_private_key_path");
    reveal_strlit("ssh_private_key_content");
    reveal_strlit("ssh_private_key_passphrase");
    reveal_strlit("ssh_target_host");
    reveal_strlit("ssh_target_port");
    assert("access_key"@.len() == 10);
    assert("ssh_auth_type"@.len() == 13);
    assert("ssh_connection_id"@.len() == 17);
    assert("ssh_host"@.len() == 8);
    assert("ssh_password"@.len() == 12);
    assert("ssh_port"@.len() == 8);
    assert("ssh_private_key_content"@.len() == 23);
    assert("ssh_private_key_passphrase"@.len() == 26);
    assert("ssh_private_key_path"@.len() == 20);
    assert("ssh_target_host"@.len() == 15);
    assert("ssh_target_port"@.len() == 15);
    assert("ssh_tunnel_enabled"@.len() == 18);
    assert("ssh_username"@.len() == 12);
}

/// `secret_key` is not the name of a tunnel field.
proof fn lemma_secret_key_not_a_tunnel_name()
    ensures
        "secret_key"@ != "ssh_tunnel_enabled"@,
        "secret_key"@ != "ssh_connection_id"@,
        "secret_key"@ != "ssh_host"@,
        "secret_key"@ != "ssh_port"@,
        "secret_key"@ != "ssh_username"@,
        "secret_key"@ != "ssh_auth_type"@,
        "secret_key"@ != "ssh_password"@,
        "secret_key"@ != "ssh_private_key_path"@,
        "secret_key"@ != "ssh_private_key_content"@,
        "secret_key"@ != "ssh_private_key_passphrase"@,
        "secret_key"@ != "ssh_target_host"@,
        "secret_key"@ != "ssh_target_port"@,
{
    reveal_strlit("secret_key");
    reveal_strlit("ssh_tunnel_enabled");
    reveal_strlit("ssh_connection_id");
    reveal_strlit("ssh_host");
    reveal_strlit("ssh_port");
    reveal_strlit("ssh_username");
    reveal_strlit("ssh_auth_type");
    reveal_strlit("ssh_password");
    reveal_strlit("ssh_private_key_path");
    reveal_strlit("ssh_private_key_content");
    reveal_strlit("ssh_private_key_passphrase");
    reveal_strlit("ssh_target_host");
    reveal_strlit("ssh_target_port");
    assert("secret_key"@.len() == 10);
    assert("ssh_auth_type"@.len() == 13);
    assert("ssh_connection_id"@.len() == 17);
    assert("ssh_host"@.len() == 8);
    assert("ssh_password"@.len() == 12);
    assert("ssh_port"@.len() == 8);
    assert("ssh_private_key_content"@.len() == 23);
    assert("ssh_private_key_passphrase"@.len() == 26);
    assert("ssh_private_key_path"@.len() == 20);
    assert("ssh_target_host"@.len() == 15);
    assert("ssh_target_port"@.len() == 15);
    assert("ssh_tunnel_enabled"@.len() == 18);
    assert("ssh_username"@.len() == 12);
}

/// `domain` is not the name of a tunnel field.
proof fn lemma_domain_not_a_tunnel_name()
    ensures
        "domain"@ != "ssh_tunnel_enabled"@,
        "domain"@ != "ssh_connection_id"@,
        "domain"@ != "ssh_host"@,
        "domain"@ != "ssh_port"@,
        "domain"@ != "ssh_username"@,
        "domain"@ != "ssh_auth_type"@,
        "domain"@ != "ssh_password"@,
        "domain"@ != "ssh_private_key_path"@,
        "domain"@ != "ssh_private_key_content"@,
        "domain"@ != "ssh_private_key_passphrase"@,
        "domain"@ != "ssh_target_host"@,
        "domain"@ != "ssh_target_port"@,
{
    reveal_strlit("domain");
    reveal_strlit("ssh_tunnel_enabled");
    reveal_strlit("ssh_connection_id");
    reveal_strlit("ssh_host");
    reveal_strlit("ssh_port");
    reveal_strlit("ssh_username");
    reveal_strlit("ssh_auth_type");
    reveal_strlit("ssh_password");
    reveal_strlit("ssh_private_key_path");
    reveal_strlit("ssh_private_key_content");
    reveal_strlit("ssh_private_key_passphrase");
    reveal_strlit("ssh_target_host");
    reveal_strlit("ssh_target_port");
    assert("domain"@.len() == 6);
    assert("ssh_auth_type"@.len() == 13);
    assert("ssh_connection_id"@.len() == 17);
    assert("ssh_host"@.len() == 8);
    assert("ssh_password"@.len() == 12);
    assert("ssh_port"@.len() == 8);
    assert("ssh_private_key_content"@.len() == 23);
    assert("ssh_private_key_passphrase"@.len() == 26);
    assert("ssh_private_key_path"@.len() == 20);
    assert("ssh_target_host"@.len() == 15);
    assert("ssh_target_port"@.len() == 15);
    assert("ssh_tunnel_enabled"@.len() == 18);
    assert("ssh_username"@.len() == 12);
}

/// `connect_timeout` is not the name of a tunnel field.
proof fn lemma_connect_timeout_not_a_tunnel_name()
    ensures
        "connect_timeout"@ != "ssh_tunnel_enabled"@,
        "connect_timeout"@ != "ssh_connection_id"@,
        "connect_timeout"@ != "ssh_host"@,
        "connect_timeout"@ != "ssh_port"@,
        "connect_timeout"@ != "ssh_username"@,
        "connect_timeout"@ != "ssh_auth_type"@,
        "connect_timeout"@ != "ssh_password"@,
        "connect_timeout"@ != "ssh_private_key_path"@,
        "connect_timeout"@ != "ssh_private_key_content"@,
        "connect_timeout"@ != "ssh_private_key_passphrase"@,
        "connect_timeout"@ != "ssh_target_host"@,
        "connect_timeout"@ != "ssh_target_port"@,
{
    reveal_strlit("connect_timeout");
    reveal_strlit("ssh_tunnel_enabled");
    reveal_strlit("ssh_connection_id");
    reveal_strlit("ssh_host");
    reveal_strlit("ssh_port");
    reveal_strlit("ssh_username");
    reveal_strlit("ssh_auth_type");
    reveal_strlit("ssh_password");
    reveal_strlit("ssh_private_key_path");
    reveal_strlit("ssh_private_key_content");
    reveal_strlit("ssh_private_key_passphrase");
    reveal_strlit("ssh_target_host");
    reveal_strlit("ssh_target_port");
    assert("connect_timeout"@.len() == 15);
    assert("ssh_auth_type"@.len() == 13);
    assert("ssh_connection_id"@.len() == 17);
    assert("ssh_host"@.len() == 8);
    assert("ssh_password"@.len() == 12);
    assert("ssh_port"@.len() == 8);
    assert("ssh_private_key_content"@.len() == 23);
    assert("ssh_private_key_passphrase"@.len() == 26);
    assert("ssh_private_key_path"@.len() == 20);
    assert("ssh_target_host"@.len() == 15);
    assert("ssh_target_port"@.len() == 15);
    assert("ssh_tunnel_enabled"@.len() == 18);
    assert("ssh_username"@.len() == 12);
    assert("connect_timeout"@[0] == 'c' && "ssh_target_host"@[0] == 's');
    assert("connect_timeout"@[0] == 'c' && "ssh_target_port"@[0] == 's');
}

/// `request_timeout` is not the name of a tunnel field.
proof fn lemma_request_timeout_not_a_tunnel_name()
    ensures
        "request_timeout"@ != "ssh_tunnel_enabled"@,
        "request_timeout"@ != "ssh_connection_id"@,
        "request_timeout"@ != "ssh_host"@,
        "request_timeout"@ != "ssh_port"@,
        "request_timeout"@ != "ssh_username"@,
        "request_timeout"@ != "ssh_auth_type"@,
        "request_timeout"@ != "ssh_password"@,
        "request_timeout"@ != "ssh_private_key_path"@,
        "request_timeout"@ != "ssh_private_key_content"@,
        "request_timeout"@ != "ssh_private_key_passphrase"@,
        "request_timeout"@ != "ssh_target_host"@,
        "request_timeout"@ != "ssh_target_port"@,
{
    reveal_strlit("request_timeout");
    reveal_strlit("ssh_tunnel_enabled");
    reveal_strlit("ssh_connection_id");
    reveal_strlit("ssh_host");
    reveal_strlit("ssh_port");
    reveal_strlit("ssh_username");
    reveal_strlit("ssh_auth_type");
    reveal_strlit("ssh_password");
    reveal_strlit("ssh_private_key_path");
    reveal_strlit("ssh_private_key_content");
    reveal_strlit("ssh_private_key_passphrase");
    reveal_strlit("ssh_target_host");
    reveal_strlit("ssh_target_port");
    assert("request_timeout"@.len() == 15);
    assert("ssh_auth_type"@.len() == 13);
    assert("ssh_connection_id"@.len() == 17);
    assert("ssh_host"@.len() == 8);
    assert("ssh_password"@.len() == 12);
    assert("ssh_port"@.len() == 8);
    assert("ssh_private_key_content"@.len() == 23);
    assert("ssh_private_key_passphrase"@.len() == 26);
    assert("ssh_private_key_path"@.len() == 20);
    assert("ssh_target_host"@.len() == 15);
    assert("ssh_target_port"@.len() == 15);
    assert("ssh_tunnel_enabled"@.len() == 18);
    assert("ssh_username"@.len() == 12);
    assert("request_timeout"@[0] == 'r' && "ssh_target_host"@[0] == 's');
    assert("request_timeout"@[0] == 'r' && "ssh_target_port"@[0] == 's');
}

/// Where the form keeps the connection's parameters.
proof fn lemma_base_fields(p: ParamsView)
    ensures
        field(loaded_fields(p), "namesrv_addrs"@) == Some(joined_lines(p.namesrv_addrs)),
        field(loaded_fields(p), "access_key"@) == Some(text_or_empty(p.access_key)),
        field(loaded_fields(p), "secret_key"@) == Some(text_or_empty(p.secret_key)),
        field(loaded_fields(p), "domain"@) == Some(text_or_empty(p.domain)),
        field(loaded_fields(p), "connect_timeout"@) == Some(
            number_or_empty(
                match p.connect_timeout {
                    Some(t) => Some(t as nat),
                    None => None,
                },
            ),
        ),
        field(loaded_fields(p), "request_timeout"@) == Some(
            number_or_empty(
                match p.request_timeout {
                    Some(t) => Some(t as nat),
                    None => None,
                },
            ),
        ),
        p.ssh_tunnel is None ==> !loaded_fields(p).contains_key("ssh_tunnel_enabled"@),
{
    lemma_base_names_distinct();
    lemma_namesrv_addrs_not_a_tunnel_name();
    lemma_access_key_not_a_tunnel_name();
    lemma_secret_key_not_a_tunnel_name();
    lemma_domain_not_a_tunnel_name();
    lemma_connect_timeout_not_a_tunnel_name();
    lemma_request_timeout_not_a_tunnel_name();
}

/// Where the form keeps a tunnel's settings.
proof fn lemma_tunnel_fields(m: Map<Seq<char>, Seq<char>>, t: TunnelView)
    ensures
        field(tunnel_fields(m, t), "ssh_tunnel_enabled"@) == Some(
            if t.enabled {
                "true"@
            } else {
                "false"@
            },
        ),
        field(tunnel_fields(m, t), "ssh_connection_id"@) == Some(
            match t.connection_id {
                Some(id) => signed_decimal(id as int),
                None => Seq::empty(),
            },
        ),
        field(tunnel_fields(m, t), "ssh_host"@) == Some(t.host),
        field(tunnel_fields(m, t), "ssh_port"@) == Some(decimal(t.port as nat)),
        field(tunnel_fields(m, t), "ssh_username"@) == Some(t.username),
        field(tunnel_fields(m, t), "ssh_auth_type"@) == Some(t.auth_type),
        field(tunnel_fields(m, t), "ssh_password"@) == Some(text_or_empty(t.password)),
        field(tunnel_fields(m, t), "ssh_private_key_path"@) == Some(text_or_empty(t.private_key_path)),
        field(tunnel_fields(m, t), "ssh_private_key_content"@) == Some(
            text_or_empty(t.private_key_content),
        ),
        field(tunnel_fields(m, t), "ssh_private_key_passphrase"@) == Some(
            text_or_empty(t.private_key_passphrase),
        ),
        field(tunnel_fields(m, t), "ssh_target_host"@) == Some(text_or_empty(t.target_host)),
        field(tunnel_fields(m, t), "ssh_target_port"@) == Some(
            match t.target_port {
                Some(v) => decimal(v as nat),
                None => Seq::empty(),
            },
        ),
{
    lemma_tunnel_names_distinct();
    lemma_tunnel_names_distinct_more();
}

/// An enabled tunnel shown exactly by the form is built back as itself.
proof fn lemma_tunnel_round_trip(m: Map<Seq<char>, Seq<char>>, t: TunnelView)
    requires
        t.enabled,
        exact_text(t.password),
        exact_text(t.private_key_path),
        exact_text(t.private_key_content),
        exact_text(t.private_key_passphrase),
        exact_text(t.target_host),
        t.timeout is None,
    ensures
        built_tunnel(tunnel_fields(m, t)) == Some(t),
{
    reveal_strlit("true");
    lemma_trim_empty();
    lemma_tunnel_fields(m, t);
    match t.connection_id {
        Some(id) => lemma_signed_round_trip(id),
        None => {},
    }
    lemma_unsigned_round_trip(t.port as nat, 0xffff);
    lemma_optional_round_trip(t.password);
    lemma_optional_round_trip(t.private_key_path);
    lemma_optional_round_trip(t.private_key_content);
    lemma_optional_round_trip(t.private_key_passphrase);
    lemma_optional_round_trip(t.target_host);
    let tp = match t.target_port {
        Some(v) => Some(v as nat),
        None => None,
    };
    lemma_number_round_trip(tp, 0xffff);
    assert(number_or_empty(tp) == (match t.target_port {
        Some(v) => decimal(v as nat),
        None => Seq::empty(),
    }));
}

/// Whether a connection's own settings show in the form exactly: plain
/// NameServer addresses, keys and domain without surrounding whitespace,
/// and no manual keys beside keychain credentials.
pub open spec fn settings_exact(p: ParamsView) -> bool {
    &&& p.namesrv_addrs.len() > 0
    &&& forall|i: int|
        0 <= i < p.namesrv_addrs.len() ==> plain_address(#[trigger] p.namesrv_addrs[i])
    &&& exact_text(p.access_key)
    &&& exact_text(p.secret_key)
    &&& exact_text(p.domain)
    &&& p.credential_reference is Some ==> p.access_key is None && p.secret_key is None
}

/// Filling the form from stored parameters and building them back keeps
/// the connection's addresses, keys, credentials, domain and both timeouts,
/// whatever its tunnel settings; an enabled tunnel stays enabled, with its
/// SSH connection.
pub proof fn law_form_keeps_connection_settings(p: ParamsView)
    requires
        settings_exact(p),
    ensures
        built_params(loaded_fields(p), p.credential_reference) matches Some(q) && q.namesrv_addrs
            == p.namesrv_addrs && q.access_key == p.access_key && q.secret_key == p.secret_key
            && q.credential_reference == p.credential_reference && q.domain == p.domain && q.connect_timeout
            == p.connect_timeout && q.request_timeout == p.request_timeout,
        match p.ssh_tunnel {
            Some(t) => t.enabled ==> (built_params(loaded_fields(p), p.credential_reference) matches Some(q)
                && q.ssh_tunnel matches Some(u) && u.enabled && u.connection_id == t.connection_id),
            None => true,
        },
{
    let m = loaded_fields(p);
    lemma_base_fields(p);
    law_addresses_round_trip(p.namesrv_addrs);
    lemma_optional_round_trip(p.access_key);
    lemma_optional_round_trip(p.secret_key);
    lemma_optional_round_trip(p.domain);
    lemma_number_round_trip(
        match p.connect_timeout {
            Some(t) => Some(t as nat),
            None => None,
        },
        u64::MAX as nat,
    );
    lemma_number_round_trip(
        match p.request_timeout {
            Some(t) => Some(t as nat),
            None => None,
        },
        u64::MAX as nat,
    );
    match p.ssh_tunnel {
        Some(t) => {
            let base = Map::<Seq<char>, Seq<char>>::empty().insert(
                "namesrv_addrs"@,
                joined_lines(p.namesrv_addrs),
            ).insert("access_key"@, text_or_empty(p.access_key)).insert(
                "secret_key"@,
                text_or_empty(p.secret_key),
            ).insert("domain"@, text_or_empty(p.domain)).insert(
                "connect_timeout"@,
                number_or_empty(
                    match p.connect_timeout {
                        Some(t) => Some(t as nat),
                        None => None,
                    },
                ),
            ).insert(
                "request_timeout"@,
                number_or_empty(
                    match p.request_timeout {
                        Some(t) => Some(t as nat),
                        None => None,
                    },
                ),
            );
            assert(m == tunnel_fields(base, t));
            if t.enabled {
                reveal_strlit("true");
                lemma_tunnel_fields(base, t);
                match t.connection_id {
                    Some(id) => lemma_signed_round_trip(id),
                    None => {
                        lemma_trim_empty();
                    },
                }
            }
        },
        None => {},
    }
}

/// Filling the form from stored parameters and building them back gives
/// the same parameters, whenever the form shows them exactly.
pub proof fn law_form_round_trip(p: ParamsView)
    requires
        form_exact(p),
    ensures
        built_params(loaded_fields(p), p.credential_reference) == Some(p),
{
    let m = loaded_fields(p);
    lemma_base_fields(p);
    law_addresses_round_trip(p.namesrv_addrs);
    lemma_optional_round_trip(p.access_key);
    lemma_optional_round_trip(p.secret_key);
    lemma_optional_round_trip(p.domain);
    lemma_number_round_trip(
        match p.connect_timeout {
            Some(t) => Some(t as nat),
            None => None,
        },
        u64::MAX as nat,
    );
    lemma_number_round_trip(
        match p.request_timeout {
            Some(t) => Some(t as nat),
            None => None,
        },
        u64::MAX as nat,
    );
    match p.ssh_tunnel {
        Some(t) => {
            let base = Map::<Seq<char>, Seq<char>>::empty().insert(
                "namesrv_addrs"@,
                joined_lines(p.namesrv_addrs),
            ).insert("access_key"@, text_or_empty(p.access_key)).insert(
                "secret_key"@,
                text_or_empty(p.secret_key),
            ).insert("domain"@, text_or_empty(p.domain)).insert(
                "connect_timeout"@,
                number_or_empty(
                    match p.connect_timeout {
                        Some(t) => Some(t as nat),
                        None => None,
                    },
                ),
            ).insert(
                "request_timeout"@,
                number_or_empty(
                    match p.request_timeout {
                        Some(t) => Some(t as nat),
                        None => None,
                    },
                ),
            );
            assert(m == tunnel_fields(base, t));
            lemma_tunnel_round_trip(base, t);
        },
        None => {
            reveal_strlit("true");
            reveal_strlit("1");
        },
    }
}

/// The message of a form without a NameServer address.
pub const NAMESRV_REQUIRED_MESSAGE: &'static str = "at least one NameServer address is required";

/// The RocketMQ adapter of the connection form.
pub struct RocketmqFormAdapter;

impl RocketmqFormAdapter {
    /// The form fields of stored parameters, to edit them.
    pub fn load_fields(&self, params: &RocketmqParams) -> (r: FormSnapshot)
        ensures
            r.fields@ == loaded_fields(params@),
            r.credential_reference == params.credential_reference,
    {
        let mut fields = FormFields::new();
        fields.insert("namesrv_addrs", format_namesrv_addrs(params.namesrv_addrs.as_slice()));
        fields.insert("access_key", owned_or_empty(&params.access_key));
        fields.insert("secret_key", owned_or_empty(&params.secret_key));
        fields.insert("domain", owned_or_empty(&params.domain));
        fields.insert("connect_timeout", number_or_blank(params.connect_timeout));
        fields.insert("request_timeout", number_or_blank(params.request_timeout));
        match &params.ssh_tunnel {
            Some(tunnel) => {
                fields.insert(
                    "ssh_tunnel_enabled",
                    if tunnel.enabled {
                        owned("true")
                    } else {
                        owned("false")
                    },
                );
                fields.insert(
                    "ssh_connection_id",
                    match tunnel.connection_id {
                        Some(id) => signed_decimal_string(id),
                        None => String::new(),
                    },
                );
                fields.insert("ssh_host", copy_string(&tunnel.host));
                fields.insert("ssh_port", decimal_string(tunnel.port as u64));
                fields.insert("ssh_username", copy_string(&tunnel.username));
                fields.insert("ssh_auth_type", copy_string(&tunnel.auth_type));
                fields.insert("ssh_password", owned_or_empty(&tunnel.password));
                fields.insert("ssh_private_key_path", owned_or_empty(&tunnel.private_key_path));
                fields.insert("ssh_private_key_content", owned_or_empty(&tunnel.private_key_content));
                fields.insert(
                    "ssh_private_key_passphrase",
                    owned_or_empty(&tunnel.private_key_passphrase),
                );
                fields.insert("ssh_target_host", owned_or_empty(&tunnel.target_host));
                fields.insert(
                    "ssh_target_port",
                    match tunnel.target_port {
                        Some(p) => decimal_string(p as u64),
                        None => String::new(),
                    },
                );
            },
            None => {},
        }
        FormSnapshot { fields, credential_reference: params.credential_reference }
    }

    /// The connection a form describes.  It needs at least one NameServer
    /// address; chosen keychain credentials replace the manual ACL keys; an
    /// SSH tunnel is built only when its check box is set.
    pub fn build_connection(&self, snapshot: &FormSnapshot, name: String, workspace_id: Option<i64>) -> (r:
        Result<StoredRocketmqConnection, String>)
        ensures
            match built_params(snapshot.fields@, snapshot.credential_reference) {
                None => r matches Err(m) && m@ == NAMESRV_REQUIRED_MESSAGE@,
                Some(p) => r matches Ok(c) && c.params@ == p && c.name == name && c.workspace_id
                    == workspace_id,
            },
    {
        let fields = &snapshot.fields;
        let raw = text_field(fields, "namesrv_addrs");
        let namesrv_addrs = parse_namesrv_addrs(raw.as_str());
        if namesrv_addrs.len() == 0 {
            return Err(owned(NAMESRV_REQUIRED_MESSAGE));
        }
        let (access_key, secret_key) = if snapshot.credential_reference.is_some() {
            (None, None)
        } else {
            (optional_input(fields.get("access_key")), optional_input(fields.get("secret_key")))
        };
        let ssh_tunnel = if bool_field(fields, "ssh_tunnel_enabled") {
            let port = match number_field(fields, "ssh_port", 0xffff) {
                Some(v) => v as u16,
                None => 22,
            };
            let target_port = match number_field(fields, "ssh_target_port", 0xffff) {
                Some(v) => Some(v as u16),
                None => None,
            };
            let auth_type = match fields.get("ssh_auth_type") {
                Some(a) => copy_string(a),
                None => owned("password"),
            };
            Some(
                RocketmqSshTunnelConfig {
                    enabled: true,
                    connection_id: signed_number_field(fields, "ssh_connection_id"),
                    host: text_field(fields, "ssh_host"),
                    port,
                    username: text_field(fields, "ssh_username"),
                    auth_type,
                    password: optional_input(fields.get("ssh_password")),
                    private_key_path: optional_input(fields.get("ssh_private_key_path")),
                    private_key_content: optional_input(fields.get("ssh_private_key_content")),
                    private_key_passphrase: optional_input(fields.get("ssh_private_key_passphrase")),
                    target_host: optional_input(fields.get("ssh_target_host")),
                    target_port,
                    timeout: None,
                },
            )
        } else {
            None
        };
        let params = RocketmqParams {
            namesrv_addrs,
            access_key,
            secret_key,
            credential_reference: snapshot.credential_reference,
            domain: optional_input(fields.get("domain")),
            connect_timeout: number_field(fields, "connect_timeout", u64::MAX),
            request_timeout: number_field(fields, "request_timeout", u64::MAX),
            ssh_tunnel,
        };
        Ok(StoredRocketmqConnection { name, params, workspace_id })
    }

    /// The default name of a connection: its first NameServer address, or
    /// the local one.
    pub fn default_name(&self, snapshot: &FormSnapshot) -> (r: String)
        ensures
            r@ == (match field(snapshot.fields@, "namesrv_addrs"@) {
                Some(raw) if addresses(raw).len() > 0 => addresses(raw)[0],
                _ => "127.0.0.1:9876"@,
            }),
    {
        match snapshot.fields.get("namesrv_addrs") {
            Some(raw) => {
                let addrs = parse_namesrv_addrs(raw.as_str());
                if addrs.len() > 0 {
                    copy_string(&addrs[0])
                } else {
                    owned("127.0.0.1:9876")
                }
            },
            None => owned("127.0.0.1:9876"),
        }
    }
}

} // verus!
