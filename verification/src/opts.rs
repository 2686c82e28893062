//! The immutable configuration of one transaction attempt, and the few
//! outside calls it owns: deriving the signing key pair from the secret URI,
//! and rendering the node URL with an implicit default port made explicit.

use vstd::prelude::*;

use crate::balance::{spec_denominated, spec_valid_decimal, BalanceVariant, TokenMetadata};
use crate::error::ErrorVariant;
use crate::pipeline::WorkflowOptions;
use crate::text::{spec_digits, u128_to_string};

verus! {

/// The parsed URL type of the `url` crate; opaque here, read only through
/// its own accessors below.
#[verifier::external_type_specification]
#[verifier::external_body]
pub struct ExUrl(url::Url);

/// What `url::Url::as_str` returns: the serialization of the parsed URL,
/// a function of the URL value alone.
pub uninterp spec fn url_rendering(u: url::Url) -> Seq<char>;

/// What `url::Url::port` returns: the port written in the URL, if any.
pub uninterp spec fn url_written_port(u: url::Url) -> Option<u16>;

/// What `url::Url::port_or_known_default` returns: the written port, or the
/// scheme's default where the library knows one.
pub uninterp spec fn url_known_default_port(u: url::Url) -> Option<u16>;

/// Relies on `url::Url::as_str`: the serialization of the parsed URL.
pub assume_specification[ url::Url::as_str ](u: &url::Url) -> (r: &str)
    ensures
        r@ == url_rendering(*u),
;

/// Relies on `url::Url::port`: the port written in the URL, if any.
pub assume_specification[ url::Url::port ](u: &url::Url) -> (r: Option<u16>)
    ensures
        r == url_written_port(*u),
;

/// Relies on `url::Url::port_or_known_default`: the written port, or the
/// scheme's default when the library knows one.
pub assume_specification[ url::Url::port_or_known_default ](u: &url::Url) -> (r: Option<u16>)
    ensures
        r == url_known_default_port(*u),
;

/// An sr25519 signing key pair, produced by the key-derivation routine of
/// `sp_core`; opaque here and only handed onward to the signer.
#[verifier::external_type_specification]
#[verifier::external_body]
pub struct ExSrPair(sp_core::sr25519::Pair);

/// Why a secret string did not yield a key pair, as `sp_core` reports it.
#[verifier::external_type_specification]
#[verifier::external_body]
pub struct ExSecretStringError(sp_core::crypto::SecretStringError);

/// Whether sr25519 key derivation succeeds on a secret URI and optional
/// password override; `sp_core`'s derivation depends on the two strings
/// alone — no randomness, time or environment enters it.
pub uninterp spec fn sr25519_derivation_succeeds(
    suri: Seq<char>,
    password: Option<Seq<char>>,
) -> bool;

/// The view of an optional borrowed password string.
pub open spec fn spec_password_view(password: Option<&str>) -> Option<Seq<char>> {
    match password {
        Some(p) => Some(p@),
        None => None,
    }
}

/// The view of an optional owned password string.
pub open spec fn spec_owned_password_view(password: Option<String>) -> Option<Seq<char>> {
    match password {
        Some(p) => Some(p@),
        None => None,
    }
}

/// Relies on `sp_core::crypto::Pair::from_string` for `sr25519::Pair`:
/// interprets a secret URI (with an optional password override) and derives
/// the signing key pair, failing exactly on the secrets its parser rejects —
/// a function of the two strings alone.
#[verifier::external_body]
fn derive_sr25519_pair(suri: &str, password: Option<&str>) -> (r: Result<
    sp_core::sr25519::Pair,
    sp_core::crypto::SecretStringError,
>)
    ensures
        r is Ok <==> sr25519_derivation_succeeds(suri@, spec_password_view(password)),
{
    <sp_core::sr25519::Pair as sp_core::crypto::Pair>::from_string(suri, password)
}

/// How much the tool narrates: quiet, default, or verbose.
#[derive(Clone, Copy, Debug, PartialEq, Eq, Structural)]
pub enum Verbosity {
    /// Print nothing beyond the essential result.
    Quiet,
    /// The default narration.
    Default,
    /// Print everything.
    Verbose,
}

/// The two mutually exclusive narration flags as the command line carries
/// them.
#[derive(Clone, Copy, Debug, PartialEq, Eq, Structural)]
pub struct VerbosityFlags {
    /// The quiet flag.
    pub quiet: bool,
    /// The verbose flag.
    pub verbose: bool,
}

/// Arguments required for creating and sending an extrinsic to a node.
/// Validated once at construction; immutable for the attempt.
pub struct ExtrinsicOpts {
    /// Path to the manifest of the contract, when not the working directory.
    pub manifest_path: Option<String>,
    /// Websockets URL of the target node.
    pub url: url::Url,
    /// Secret key URI for the account signing the extrinsic.
    pub suri: String,
    /// Password for the secret key.
    pub password: Option<String>,
    /// Narration flags.
    pub verbosity: VerbosityFlags,
    /// Simulate only; the extrinsic is never submitted.
    pub dry_run: bool,
    /// The most balance the caller may be charged for storage.
    pub storage_deposit_limit: Option<BalanceVariant>,
    /// Submit without simulating first.
    pub skip_dry_run: bool,
    /// Submit without asking for confirmation.
    pub skip_confirm: bool,
}

/// A character that closes the authority of a rendered URL: the opener of
/// its path, query or fragment.
pub open spec fn spec_is_authority_end(c: char) -> bool {
    c == '/' || c == '?' || c == '#'
}

/// Whether the scheme separator `://` stands at index `j`.
pub open spec fn spec_sep_at(s: Seq<char>, j: int) -> bool {
    &&& 0 <= j
    &&& j + 3 <= s.len()
    &&& s[j] == ':'
    &&& s[j + 1] == '/'
    &&& s[j + 2] == '/'
}

/// The index of the first scheme separator `://`; past `len - 3` when the
/// rendering has none.
pub open spec fn spec_sep_pos(s: Seq<char>) -> nat
    decreases s.len(),
{
    if s.len() < 3 {
        s.len()
    } else if s[0] == ':' && s[1] == '/' && s[2] == '/' {
        0
    } else {
        1 + spec_sep_pos(s.subrange(1, s.len() as int))
    }
}

/// The index of the first authority-closing character, or the length when
/// there is none.
pub open spec fn spec_authority_end(s: Seq<char>) -> nat
    decreases s.len(),
{
    if s.len() == 0 {
        0
    } else if spec_is_authority_end(s[0]) {
        0
    } else {
        1 + spec_authority_end(s.subrange(1, s.len() as int))
    }
}

/// The first scheme separator stands where no earlier index carries one.
proof fn lemma_sep_pos_at(s: Seq<char>, m: int)
    requires
        0 <= m <= s.len(),
        forall|j: int| 0 <= j < m ==> !spec_sep_at(s, j),
        m + 3 <= s.len() ==> spec_sep_at(s, m),
    ensures
        m + 3 <= s.len() ==> spec_sep_pos(s) == m,
        m + 3 > s.len() ==> spec_sep_pos(s) + 3 > s.len(),
    decreases m,
{
    if s.len() < 3 {
    } else if m == 0 {
    } else {
        let rest = s.subrange(1, s.len() as int);
        assert(!spec_sep_at(s, 0));
        assert forall|j: int| 0 <= j < m - 1 implies !spec_sep_at(rest, j) by {
            assert(spec_sep_at(rest, j) ==> spec_sep_at(s, j + 1));
        }
        assert(m - 1 + 3 <= rest.len() ==> spec_sep_at(rest, m - 1)) by {
            if m + 3 <= s.len() {
                assert(spec_sep_at(s, m));
                assert(rest[m - 1] == s[m]);
                assert(rest[m] == s[m + 1]);
                assert(rest[m + 1] == s[m + 2]);
            }
        }
        lemma_sep_pos_at(rest, m - 1);
    }
}

/// The authority ends where no earlier character closes it.
proof fn lemma_authority_end_at(s: Seq<char>, m: int)
    requires
        0 <= m <= s.len(),
        forall|j: int| 0 <= j < m ==> !spec_is_authority_end(#[trigger] s[j]),
        m < s.len() ==> spec_is_authority_end(s[m]),
    ensures
        spec_authority_end(s) == m,
    decreases m,
{
    if s.len() == 0 {
    } else if m == 0 {
    } else {
        let rest = s.subrange(1, s.len() as int);
        lemma_authority_end_at(rest, m - 1);
    }
}

/// The rendering with an explicit `:port` inserted at the end of its
/// authority — after the host, before the path, query or fragment — when the
/// port was left implicit but a scheme default is known; any other rendering
/// is left unchanged. A rendering without a `://` separator (a non-special
/// scheme, which never has a known default port) is left unchanged too.
pub open spec fn spec_port_explicit(
    rendered: Seq<char>,
    port: Option<u16>,
    known_default: Option<u16>,
) -> Seq<char> {
    match (port, known_default) {
        (None, Some(p)) => {
            if spec_sep_pos(rendered) + 3 <= rendered.len() {
                let host_start = spec_sep_pos(rendered) + 3;
                let j = host_start + spec_authority_end(
                    rendered.subrange(host_start as int, rendered.len() as int),
                );
                rendered.subrange(0, j as int) + ":"@ + spec_digits(p as nat) + rendered.subrange(
                    j as int,
                    rendered.len() as int,
                )
            } else {
                rendered
            }
        },
        _ => rendered,
    }
}

/// Whether the executable character closes the authority.
fn is_authority_end_char(c: char) -> (r: bool)
    ensures
        r == spec_is_authority_end(c),
{
    c == '/' || c == '?' || c == '#'
}

/// Inserts an explicit `:port` at the end of the authority of a rendered
/// URL whose port was left implicit but has a known scheme default; any
/// other rendering is returned unchanged.
pub fn make_port_explicit(rendered: String, port: Option<u16>, known_default: Option<u16>) -> (r:
    String)
    ensures
        r@ == spec_port_explicit(rendered@, port, known_default),
{
    match (port, known_default) {
        (None, Some(p)) => {
            let n = rendered.as_str().unicode_len();
            if n < 3 {
                proof {
                    lemma_sep_pos_at(rendered@, n as int);
                }
                return rendered;
            }
            let mut i: usize = 0;
            let mut sep: usize = n;
            while sep == n && i < n - 2
                invariant
                    3 <= n == rendered@.len(),
                    0 <= i <= n,
                    sep <= n,
                    sep == n ==> forall|j: int| 0 <= j < i ==> !spec_sep_at(rendered@, j),
                    sep < n ==> spec_sep_at(rendered@, sep as int) && (forall|j: int|
                        0 <= j < sep ==> !spec_sep_at(rendered@, j)),
                decreases n - i + (if sep == n { 1int } else { 0int }),
            {
                let a = rendered.as_str().get_char(i);
                let b = rendered.as_str().get_char(i + 1);
                let c = rendered.as_str().get_char(i + 2);
                if a == ':' && b == '/' && c == '/' {
                    sep = i;
                } else {
                    i = i + 1;
                }
            }
            if sep == n {
                proof {
                    assert forall|j: int| 0 <= j < n implies !spec_sep_at(rendered@, j) by {
                        if j + 3 <= n {
                            assert(j < i);
                        }
                    }
                    lemma_sep_pos_at(rendered@, n as int);
                }
                return rendered;
            }
            proof {
                lemma_sep_pos_at(rendered@, sep as int);
            }
            let host_start = sep + 3;
            let ghost suffix = rendered@.subrange(host_start as int, rendered@.len() as int);
            let mut j: usize = host_start;
            while j < n && !is_authority_end_char(rendered.as_str().get_char(j))
                invariant
                    host_start <= j <= n == rendered@.len(),
                    host_start == sep + 3 <= n,
                    suffix == rendered@.subrange(host_start as int, rendered@.len() as int),
                    forall|k: int|
                        0 <= k < j - host_start ==> !spec_is_authority_end(#[trigger] suffix[k]),
                decreases n - j,
            {
                proof {
                    assert(suffix[j - host_start] == rendered@[j as int]);
                }
                j = j + 1;
            }
            proof {
                if j < n {
                    assert(suffix[j - host_start] == rendered@[j as int]);
                }
                lemma_authority_end_at(suffix, j - host_start);
            }
            let mut out = rendered.as_str().substring_char(0, j).to_owned();
            out.append(":");
            let digits = u128_to_string(p as u128);
            out.append(digits.as_str());
            let tail = rendered.as_str().substring_char(j, n);
            out.append(tail);
            proof {
                assert(out@ =~= spec_port_explicit(rendered@, port, known_default));
            }
            out
        },
        _ => rendered,
    }
}

impl ExtrinsicOpts {
    /// Derives the signing key pair from the secret URI and password: the
    /// derivation succeeds exactly when `sp_core` accepts the secret, and a
    /// malformed secret fails with `InvalidSecret`.
    pub fn signer(&self) -> (r: Result<sp_core::sr25519::Pair, ErrorVariant>)
        ensures
            r is Ok <==> sr25519_derivation_succeeds(
                self.suri@,
                spec_owned_password_view(self.password),
            ),
            r is Err ==> r == Result::<sp_core::sr25519::Pair, ErrorVariant>::Err(
                ErrorVariant::InvalidSecret,
            ),
    {
        let password: Option<&str> = match &self.password {
            Some(p) => Some(p.as_str()),
            None => None,
        };
        match derive_sr25519_pair(self.suri.as_str(), password) {
            Ok(pair) => Ok(pair),
            Err(_) => Err(ErrorVariant::InvalidSecret),
        }
    }

    /// The narration level the two flags select; both at once is rejected
    /// with the conflict named.
    pub fn verbosity(&self) -> (r: Result<Verbosity, ErrorVariant>)
        ensures
            self.verbosity.quiet && self.verbosity.verbose ==> (match r {
                Result::Err(ErrorVariant::InvalidInput(t)) => t@
                    == "Cannot pass both --quiet and --verbose flags"@,
                _ => false,
            }),
            self.verbosity.quiet && !self.verbosity.verbose ==> r == Result::<
                Verbosity,
                ErrorVariant,
            >::Ok(Verbosity::Quiet),
            !self.verbosity.quiet && self.verbosity.verbose ==> r == Result::<
                Verbosity,
                ErrorVariant,
            >::Ok(Verbosity::Verbose),
            !self.verbosity.quiet && !self.verbosity.verbose ==> r == Result::<
                Verbosity,
                ErrorVariant,
            >::Ok(Verbosity::Default),
    {
        match (self.verbosity.quiet, self.verbosity.verbose) {
            (true, true) => Err(
                ErrorVariant::InvalidInput(
                    String::from_str("Cannot pass both --quiet and --verbose flags"),
                ),
            ),
            (true, false) => Ok(Verbosity::Quiet),
            (false, true) => Ok(Verbosity::Verbose),
            (false, false) => Ok(Verbosity::Default),
        }
    }

    /// Renders the node URL without omitting the default port: a URL whose
    /// port was left implicit is echoed with the scheme's known default made
    /// explicit at the end of the authority, so logs always name the port
    /// actually used.
    pub fn url_to_string(&self) -> (r: String)
        ensures
            r@ == spec_port_explicit(
                url_rendering(self.url),
                url_written_port(self.url),
                url_known_default_port(self.url),
            ),
    {
        let rendered = self.url.as_str().to_owned();
        let port = self.url.port();
        let known_default = self.url.port_or_known_default();
        make_port_explicit(rendered, port, known_default)
    }

    /// The three flags that steer the dry-run / confirm / submit workflow.
    pub fn workflow_options(&self) -> (r: WorkflowOptions)
        ensures
            r.dry_run == self.dry_run,
            r.skip_dry_run == self.skip_dry_run,
            r.skip_confirm == self.skip_confirm,
    {
        WorkflowOptions {
            dry_run: self.dry_run,
            skip_dry_run: self.skip_dry_run,
            skip_confirm: self.skip_confirm,
        }
    }

    /// The storage-deposit cap in base units, denominated against the
    /// token's decimal places when it was given as a decimal string.
    pub fn storage_deposit_limit(&self, token_metadata: &TokenMetadata) -> (r: Result<
        Option<u128>,
        ErrorVariant,
    >)
        ensures
            (match self.storage_deposit_limit {
                None => r == Result::<Option<u128>, ErrorVariant>::Ok(None),
                Some(BalanceVariant::Raw(v)) => r == Result::<Option<u128>, ErrorVariant>::Ok(
                    Some(v),
                ),
                Some(BalanceVariant::Denominated(s)) => {
                    if spec_valid_decimal(s@, token_metadata.decimals as nat) && spec_denominated(
                        s@,
                        token_metadata.decimals as nat,
                    ) <= u128::MAX {
                        r == Result::<Option<u128>, ErrorVariant>::Ok(
                            Some(spec_denominated(s@, token_metadata.decimals as nat) as u128),
                        )
                    } else {
                        match r {
                            Result::Err(ErrorVariant::InvalidAmount(t)) => t@ == s@,
                            _ => false,
                        }
                    }
                },
            }),
    {
        match &self.storage_deposit_limit {
            None => Ok(None),
            Some(bv) => {
                match bv.denominate_balance(token_metadata) {
                    Ok(v) => Ok(Some(v)),
                    Err(e) => Err(e),
                }
            },
        }
    }
}

} // verus!
