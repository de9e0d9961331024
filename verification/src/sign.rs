//! Signing helpers: the decisions around producing a commit or tag
//! signature with the configured signer, as git's `gpg-interface.c`
//! makes them.
//!
//! Running `gpg` or `ssh-keygen` happens outside the library; here are
//! the signature format, the argument vectors, the checks made before a
//! signer runs and on what it produced, and the detection of signature
//! blocks embedded in a tag message.

use vstd::prelude::*;
use crate::text::{
    ascii_lower, ascii_lower_chars, chars_of, contains_sub, eq_chars, find_sub, string_of, trim,
    trim_chars, trim_start, trim_start_index,
};

verus! {

/// The signature scheme, from `gpg.format`.
#[derive(Debug, Clone, Copy, PartialEq, Eq, Structural)]
pub enum SignFormat {
    OpenPgp,
    Ssh,
    X509,
}

/// The format a `gpg.format` value names: OpenPGP unless it reads `ssh`
/// or `x509` (ignoring case and surrounding white space), as in git.
pub open spec fn sign_format_spec(value: Seq<char>) -> SignFormat {
    let v = ascii_lower(trim(value));
    if v == "ssh"@ {
        SignFormat::Ssh
    } else if v == "x509"@ {
        SignFormat::X509
    } else {
        SignFormat::OpenPgp
    }
}

impl SignFormat {
    /// Parse `gpg.format` (default OpenPGP, matching git).
    pub fn parse(value: &str) -> (f: SignFormat)
        ensures
            f == sign_format_spec(value@),
    {
        let v = ascii_lower_chars(&trim_chars(&chars_of(value)));
        if eq_chars(&v, &chars_of("ssh")) {
            SignFormat::Ssh
        } else if eq_chars(&v, &chars_of("x509")) {
            SignFormat::X509
        } else {
            SignFormat::OpenPgp
        }
    }
}

/// The text of the `k`-th signature block marker git recognizes at the
/// end of a tag payload.
pub open spec fn marker_text(k: int) -> Seq<char> {
    if k == 0 {
        "-----BEGIN PGP SIGNATURE-----"@
    } else if k == 1 {
        "-----BEGIN PGP MESSAGE-----"@
    } else if k == 2 {
        "-----BEGIN SSH SIGNATURE-----"@
    } else {
        "-----BEGIN SIGNED MESSAGE-----"@
    }
}

/// The bytes of an ASCII text.
pub open spec fn ascii_bytes(s: Seq<char>) -> Seq<u8> {
    s.map_values(|c: char| c as u8)
}

/// The bytes of the `k`-th marker.
pub open spec fn marker(k: int) -> Seq<u8> {
    ascii_bytes(marker_text(k))
}

/// `pat` occurs in `m` at index `i`.
pub open spec fn bytes_at(m: Seq<u8>, i: int, pat: Seq<u8>) -> bool {
    0 <= i && i + pat.len() <= m.len() && m.subrange(i, i + pat.len()) == pat
}

/// Index `i` starts a line of `m`: it is 0, or follows a newline.
pub open spec fn line_start(m: Seq<u8>, i: int) -> bool {
    i == 0 || (1 <= i <= m.len() && m[i - 1] == 10u8)
}

/// A signature block begins at index `i` of `m`: a line starts there
/// with one of the markers.
pub open spec fn signature_block_at(m: Seq<u8>, i: int) -> bool {
    &&& line_start(m, i)
    &&& exists|k: int| 0 <= k < 4 && #[trigger] bytes_at(m, i, marker(k))
}

/// The bytes of an ASCII text.
pub(crate) fn bytes_of(text: &str) -> (r: Vec<u8>)
    ensures
        r@ == ascii_bytes(text@),
{
    let cs = chars_of(text);
    let mut r: Vec<u8> = Vec::new();
    let mut i: usize = 0;
    while i < cs.len()
        invariant
            cs@ == text@,
            i <= cs.len(),
            r@ == ascii_bytes(cs@.take(i as int)),
        decreases cs.len() - i,
    {
        r.push(cs[i] as u8);
        i = i + 1;
        assert(r@ =~= ascii_bytes(cs@.take(i as int)));
    }
    assert(cs@.take(cs.len() as int) =~= cs@);
    r
}

/// The four markers, in order.
fn markers() -> (r: Vec<Vec<u8>>)
    ensures
        r@.len() == 4,
        forall|k: int| 0 <= k < 4 ==> (#[trigger] r@[k])@ == marker(k),
{
    let mut r: Vec<Vec<u8>> = Vec::new();
    r.push(bytes_of("-----BEGIN PGP SIGNATURE-----"));
    r.push(bytes_of("-----BEGIN PGP MESSAGE-----"));
    r.push(bytes_of("-----BEGIN SSH SIGNATURE-----"));
    r.push(bytes_of("-----BEGIN SIGNED MESSAGE-----"));
    r
}

/// Whether `pat` occurs in `m` at index `i`.
fn bytes_at_exec(m: &[u8], i: usize, pat: &Vec<u8>) -> (b: bool)
    ensures
        b == bytes_at(m@, i as int, pat@),
{
    if pat.len() > m.len() || i > m.len() - pat.len() {
        return false;
    }
    let n = m.len();
    let mut k: usize = 0;
    while k < pat.len()
        invariant
            n == m@.len(),
            i + pat.len() <= m@.len(),
            k <= pat.len(),
            forall|j: int| 0 <= j < k ==> m@[i + j] == pat@[j],
        decreases pat.len() - k,
    {
        if m[i + k] != pat[k] {
            assert(m@.subrange(i as int, i + pat.len())[k as int] != pat@[k as int]);
            return false;
        }
        k = k + 1;
    }
    assert(m@.subrange(i as int, i + pat.len()) =~= pat@);
    true
}

/// Every marker is longer than nothing.
proof fn lemma_markers_nonempty(k: int)
    requires
        0 <= k < 4,
    ensures
        marker(k).len() > 0,
{
    reveal_strlit("-----BEGIN PGP SIGNATURE-----");
    reveal_strlit("-----BEGIN PGP MESSAGE-----");
    reveal_strlit("-----BEGIN SSH SIGNATURE-----");
    reveal_strlit("-----BEGIN SIGNED MESSAGE-----");
}

/// Byte offset where a signature block embedded in a tag message
/// starts, if any: the first line start at which a marker begins. The
/// block must begin at the start of a line, as in git.
pub fn embedded_signature(message: &[u8]) -> (r: Option<usize>)
    ensures
        (r matches Some(i) ==> signature_block_at(message@, i as int)),
        (r matches Some(i) ==> forall|j: int| 0 <= j < i ==> !signature_block_at(message@, j)),
        r is None ==> forall|j: int| 0 <= j <= message@.len() ==> !signature_block_at(message@, j),
{
    let ms = markers();
    let mut start: usize = 0;
    while start < message.len()
        invariant
            ms@.len() == 4,
            forall|k: int| 0 <= k < 4 ==> (#[trigger] ms@[k])@ == marker(k),
            start <= message@.len(),
            forall|j: int| 0 <= j < start ==> !signature_block_at(message@, j),
        decreases message@.len() - start,
    {
        let at_line = start == 0 || message[start - 1] == 10u8;
        if at_line {
            let mut k: usize = 0;
            while k < 4
                invariant
                    ms@.len() == 4,
                    forall|k: int| 0 <= k < 4 ==> (#[trigger] ms@[k])@ == marker(k),
                    start < message@.len(),
                    forall|j: int| 0 <= j < start ==> !signature_block_at(message@, j),
                    line_start(message@, start as int),
                    k <= 4,
                    forall|q: int| 0 <= q < k ==> !bytes_at(message@, start as int, #[trigger] marker(q)),
                decreases 4 - k,
            {
                if bytes_at_exec(message, start, &ms[k]) {
                    assert(bytes_at(message@, start as int, marker(k as int)));
                    return Some(start);
                }
                k = k + 1;
            }
            assert(!signature_block_at(message@, start as int)) by {
                if signature_block_at(message@, start as int) {
                    let q = choose|q: int| 0 <= q < 4 && #[trigger] bytes_at(message@, start as int, marker(q));
                    assert(!bytes_at(message@, start as int, marker(q)));
                }
            }
        }
        start = start + 1;
    }
    assert(!signature_block_at(message@, message@.len() as int)) by {
        if signature_block_at(message@, message@.len() as int) {
            let q = choose|q: int| 0 <= q < 4 && #[trigger] bytes_at(message@, message@.len() as int, marker(q));
            lemma_markers_nonempty(q);
        }
    }
    None
}

/// A Unicode text starts with `p`.
pub open spec fn has_prefix(s: Seq<char>, p: Seq<char>) -> bool {
    p.len() <= s.len() && s.take(p.len() as int) == p
}

/// `user.signingkey` holds a literal SSH public key rather than a path:
/// after leading white space it starts with `ssh-`, `sk-` or `key::`
/// (git checks the same prefixes).
pub open spec fn literal_ssh_key(key: Seq<char>) -> bool {
    let k = trim_start(key);
    has_prefix(k, "ssh-"@) || has_prefix(k, "sk-"@) || has_prefix(k, "key::"@)
}

/// Whether `cs` from index `i` starts with `p`.
fn prefix_at(cs: &Vec<char>, i: usize, p: &str) -> (b: bool)
    requires
        i <= cs.len(),
    ensures
        b == has_prefix(cs@.subrange(i as int, cs@.len() as int), p@),
{
    let ps = chars_of(p);
    let ghost s = cs@.subrange(i as int, cs@.len() as int);
    if ps.len() > cs.len() - i {
        return false;
    }
    let mut k: usize = 0;
    while k < ps.len()
        invariant
            ps@ == p@,
            s == cs@.subrange(i as int, cs@.len() as int),
            i + ps.len() <= cs.len(),
            k <= ps.len(),
            forall|j: int| 0 <= j < k ==> s[j] == ps@[j],
        decreases ps.len() - k,
    {
        if cs[i + k] != ps[k] {
            assert(s.take(ps@.len() as int)[k as int] != ps@[k as int]);
            return false;
        }
        k = k + 1;
    }
    assert(s.take(ps@.len() as int) =~= ps@);
    true
}

/// Whether `user.signingkey` is a literal SSH public key rather than a
/// path (git checks the same prefixes).
pub fn is_literal_ssh_key(key: &str) -> (b: bool)
    ensures
        b == literal_ssh_key(key@),
{
    let cs = chars_of(key);
    let i = trim_start_index(&cs);
    prefix_at(&cs, i, "ssh-") || prefix_at(&cs, i, "sk-") || prefix_at(&cs, i, "key::")
}

/// A `String` holding `s`.
fn owned(s: &str) -> (r: String)
    ensures
        r@ == s@,
{
    string_of(&chars_of(s))
}

/// argv for the OpenPGP detached-armored signature: `gpg --status-fd=2
/// -bsau <key>`.
pub fn openpgp_args(key: &str) -> (r: Vec<String>)
    ensures
        r@.len() == 3,
        r@[0]@ == "--status-fd=2"@,
        r@[1]@ == "-bsau"@,
        r@[2]@ == key@,
{
    let mut r: Vec<String> = Vec::new();
    r.push(owned("--status-fd=2"));
    r.push(owned("-bsau"));
    r.push(owned(key));
    r
}

/// argv for `ssh-keygen -Y sign -n git -f <key> <payload>`.
pub fn ssh_args(key: &str, payload: &str) -> (r: Vec<String>)
    ensures
        r@.len() == 7,
        r@[0]@ == "-Y"@,
        r@[1]@ == "sign"@,
        r@[2]@ == "-n"@,
        r@[3]@ == "git"@,
        r@[4]@ == "-f"@,
        r@[5]@ == key@,
        r@[6]@ == payload@,
{
    let mut r: Vec<String> = Vec::new();
    r.push(owned("-Y"));
    r.push(owned("sign"));
    r.push(owned("-n"));
    r.push(owned("git"));
    r.push(owned("-f"));
    r.push(owned(key));
    r.push(owned(payload));
    r
}

/// Where `ssh-keygen` writes the signature of `payload`: the same path
/// with `.sig` appended.
pub fn sig_path(payload: &str) -> (r: String)
    ensures
        r@ == payload@ + ".sig"@,
{
    let mut r = owned(payload);
    r.append(".sig");
    r
}

/// Why signing could not be produced.
#[derive(Debug, Clone, PartialEq, Eq)]
pub enum SignError {
    Unsupported,
    NoKey,
    Spawn(String, String),
    Failed(String, String),
    Io(String),
}

/// The message of each signing error.
pub open spec fn sign_error_message(e: SignError) -> Seq<char> {
    match e {
        SignError::Unsupported => "x509 (gpgsm) signing is not supported; re-run with --no-sign"@,
        SignError::NoKey => "no signing key configured (git config user.signingkey); re-run with --no-sign"@,
        SignError::Spawn(p, m) => "could not run the signer '"@ + p@ + "': "@ + m@,
        SignError::Failed(p, m) => "the signer '"@ + p@ + "' failed: "@ + m@,
        SignError::Io(m) => "i/o error while signing: "@ + m@,
    }
}

impl SignError {
    /// The message shown to the user.
    pub fn to_string(&self) -> (m: String)
        ensures
            m@ == sign_error_message(*self),
    {
        match self {
            SignError::Unsupported => owned("x509 (gpgsm) signing is not supported; re-run with --no-sign"),
            SignError::NoKey => owned(
                "no signing key configured (git config user.signingkey); re-run with --no-sign",
            ),
            SignError::Spawn(p, m) => {
                let mut r = owned("could not run the signer '");
                r.append(p.as_str());
                r.append("': ");
                r.append(m.as_str());
                r
            },
            SignError::Failed(p, m) => {
                let mut r = owned("the signer '");
                r.append(p.as_str());
                r.append("' failed: ");
                r.append(m.as_str());
                r
            },
            SignError::Io(m) => {
                let mut r = owned("i/o error while signing: ");
                r.append(m.as_str());
                r
            },
        }
    }
}

/// A configured signer.
#[derive(Debug, Clone)]
pub struct Signer {
    pub format: SignFormat,
    /// `user.signingkey` (a key id, a key path, or a literal SSH key).
    pub key: String,
    /// The signer program (`gpg` / `ssh-keygen` / ...).
    pub program: String,
}

/// The marker an SSH signature starts with.
pub open spec fn ssh_marker() -> Seq<u8> {
    marker(2)
}

/// What `ssh-keygen` is reported to have failed with when its output is
/// no SSH signature.
pub open spec fn not_ssh_signature() -> Seq<char> {
    "ssh-keygen did not produce an SSH signature"@
}

impl Signer {
    /// The checks made before running the signer: a blank key is
    /// refused, then X.509 is unsupported; otherwise the format to sign
    /// with.
    pub fn precheck(&self) -> (r: Result<SignFormat, SignError>)
        ensures
            trim(self.key@).len() == 0 ==> r == Err::<SignFormat, SignError>(SignError::NoKey),
            trim(self.key@).len() != 0 && self.format == SignFormat::X509 ==> r == Err::<
                SignFormat,
                SignError,
            >(SignError::Unsupported),
            trim(self.key@).len() != 0 && self.format != SignFormat::X509 ==> r == Ok::<
                SignFormat,
                SignError,
            >(self.format),
    {
        if trim_chars(&chars_of(self.key.as_str())).len() == 0 {
            return Err(SignError::NoKey);
        }
        match self.format {
            SignFormat::X509 => Err(SignError::Unsupported),
            f => Ok(f),
        }
    }

    /// What a `gpg` run amounts to: its armored signature on stdout when
    /// it exited successfully and reported `SIG_CREATED` on stderr;
    /// otherwise a failure carrying the program and its stderr.
    pub fn openpgp_result(&self, success: bool, stdout: Vec<u8>, stderr: String) -> (r: Result<
        Vec<u8>,
        SignError,
    >)
        ensures
            success && contains_sub(stderr@, "SIG_CREATED"@) ==> r == Ok::<Vec<u8>, SignError>(stdout),
            !(success && contains_sub(stderr@, "SIG_CREATED"@)) ==> (r matches Err(SignError::Failed(p, m))
                && p@ == self.program@ && m@ == stderr@),
    {
        let found = find_sub(&chars_of(stderr.as_str()), &chars_of("SIG_CREATED"));
        if !success || found.is_none() {
            return Err(SignError::Failed(owned(self.program.as_str()), stderr));
        }
        Ok(stdout)
    }

    /// What an `ssh-keygen` run amounts to, given whether it exited
    /// successfully, its stderr, and (after a success) the result of
    /// reading the signature file: a failed run reports its stderr, a
    /// failed read is an I/O error, and what was read must be an SSH
    /// signature.
    pub fn ssh_result(&self, success: bool, stderr: String, read: Result<Vec<u8>, String>) -> (r: Result<
        Vec<u8>,
        SignError,
    >)
        ensures
            !success ==> (r matches Err(SignError::Failed(p, m)) && p@ == self.program@ && m@ == stderr@),
            success && read is Err ==> r == Err::<Vec<u8>, SignError>(SignError::Io(read->Err_0)),
            success && read is Ok && bytes_at(read->Ok_0@, 0, ssh_marker()) ==> r == Ok::<Vec<u8>, SignError>(read->Ok_0),
            success && read is Ok && !bytes_at(read->Ok_0@, 0, ssh_marker()) ==> (r matches Err(
                SignError::Failed(p, m),
            ) && p@ == self.program@ && m@ == not_ssh_signature()),
    {
        if !success {
            return Err(SignError::Failed(owned(self.program.as_str()), stderr));
        }
        match read {
            Err(e) => Err(SignError::Io(e)),
            Ok(sig) => {
                let m = bytes_of("-----BEGIN SSH SIGNATURE-----");
                if bytes_at_exec(sig.as_slice(), 0, &m) {
                    Ok(sig)
                } else {
                    Err(
                        SignError::Failed(
                            owned(self.program.as_str()),
                            owned("ssh-keygen did not produce an SSH signature"),
                        ),
                    )
                }
            },
        }
    }
}

} // verus!
