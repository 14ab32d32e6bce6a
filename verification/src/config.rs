//! The host's configuration and the profiles of devices.
//!
//! Files are read and written by the program around this; here is what is in them, what is added to
//! them, and which of them counts.
use vstd::prelude::*;

use crate::hex;
use crate::noise::{NoiseError, NoiseTransport};
use crate::text;

verus! {

// ---- the host ----

#[derive(Debug)]
pub struct HostConfig {
    pub host: HostSection,
    pub gpu: GpuSection,
    pub encode: EncodeSection,
    pub pairing: PairingSection,
}

/// What pairs a client with the host. It is made on the first run and kept: a new one would lock
/// out every client that was paired before.
#[derive(Debug)]
pub struct PairingSection {
    /// The secret that a client presents in `Hello`.
    pub token: String,
    /// The keys of the encrypted channel, in hexadecimal.
    pub noise_private_key: String,
    pub noise_public_key: String,
}

#[derive(Debug)]
pub struct HostSection {
    /// Empty means the address of the primary interface.
    pub ip: String,
    pub port: u16,
}

#[derive(Debug)]
pub struct GpuSection {
    pub vaapi_render_node: String,
}

#[derive(Debug)]
pub struct EncodeSection {
    pub codec: String,
    pub qp: u32,
    pub fps: u32,
    /// How many frames VA-API has in work at once. More of them raise throughput and latency.
    pub async_depth: u32,
}

/// A `PairingSection` with its texts as sequences.
#[verifier::ext_equal]
pub struct PairingView {
    pub token: Seq<char>,
    pub private_key: Seq<char>,
    pub public_key: Seq<char>,
}

impl View for PairingSection {
    type V = PairingView;

    open spec fn view(&self) -> PairingView {
        PairingView {
            token: self.token@,
            private_key: self.noise_private_key@,
            public_key: self.noise_public_key@,
        }
    }
}

impl Default for PairingSection {
    fn default() -> (res: Self)
        ensures
            res.token@.len() == 0,
            res.noise_private_key@.len() == 0,
            res.noise_public_key@.len() == 0,
    {
        PairingSection {
            token: String::new(),
            noise_private_key: String::new(),
            noise_public_key: String::new(),
        }
    }
}

impl Default for EncodeSection {
    fn default() -> (res: Self)
        ensures
            res.codec@ == "h264_vaapi"@,
            res.qp == 24,
            res.fps == 30,
            res.async_depth == 1,
    {
        EncodeSection {
            codec: default_codec(),
            qp: default_qp(),
            fps: default_fps(),
            async_depth: default_async_depth(),
        }
    }
}

pub fn default_port() -> (res: u16)
    ensures
        res == 9999,
{
    9999
}

pub fn default_codec() -> (res: String)
    ensures
        res@ == "h264_vaapi"@,
{
    "h264_vaapi".to_owned()
}

pub fn default_qp() -> (res: u32)
    ensures
        res == 24,
{
    24
}

pub fn default_fps() -> (res: u32)
    ensures
        res == 30,
{
    30
}

pub fn default_async_depth() -> (res: u32)
    ensures
        res == 1,
{
    1
}

// ---- completing the pairing section ----

/// Whether `s` from `i` to `j` is a line.
pub open spec fn is_line(s: Seq<char>, i: int, j: int) -> bool {
    &&& 0 <= i <= j <= s.len()
    &&& i == 0 || s[i - 1] == '\n'
    &&& j == s.len() || s[j] == '\n'
    &&& forall|k: int| i <= k < j ==> s[k] != '\n'
}

/// Whether some line, but for white space around it, is the header of the pairing section. A
/// comment that mentions the header is none.
pub open spec fn has_header(s: Seq<char>) -> bool {
    exists|i: int, j: int| #[trigger] is_line(s, i, j) && text::trimmed(s.subrange(i, j)) == "[pairing]"@
}

fn has_pairing_header(file: &str) -> (res: bool)
    ensures
        res == has_header(file@),
{
    let v = text::chars_of(file);
    let header = text::chars_of("[pairing]");
    let ghost s = file@;
    let mut at: usize = 0;
    loop
        invariant
            s == file@,
            v@ == s,
            header@ == "[pairing]"@,
            at <= v@.len(),
            at == 0 || s[at - 1] == '\n',
            forall|i: int, j: int|
                #![trigger is_line(s, i, j)]
                is_line(s, i, j) && i < at ==> text::trimmed(s.subrange(i, j)) != "[pairing]"@,
        decreases v@.len() - at,
    {
        let mut end: usize = at;
        while end < v.len() && v[end] != '\n'
            invariant
                v@ == s,
                at <= end <= v@.len(),
                forall|k: int| at <= k < end ==> s[k] != '\n',
            decreases v@.len() - end,
        {
            end = end + 1;
        }
        assert(is_line(s, at as int, end as int));
        let (from, to) = text::trim_bounds(v.as_slice(), at, end);
        if same_chars(vstd::slice::slice_subrange(v.as_slice(), from, to), header.as_slice()) {
            return true;
        }
        assert forall|i: int, j: int|
            #![trigger is_line(s, i, j)]
            is_line(s, i, j) && i <= end implies text::trimmed(s.subrange(i, j)) != "[pairing]"@ by {
            if i > at {
                assert(s[i - 1] != '\n');
            } else if i == at {
                if j < end {
                    assert(s[j] != '\n');
                }
                if end < j {
                    assert(s[end as int] == '\n');
                }
            }
        }
        if end == v.len() {
            return false;
        }
        at = end + 1;
    }
}

fn same_chars(a: &[char], b: &[char]) -> (res: bool)
    ensures
        res == (a@ == b@),
{
    if a.len() != b.len() {
        return false;
    }
    let mut i: usize = 0;
    while i < a.len()
        invariant
            i <= a.len() == b.len(),
            forall|k: int| 0 <= k < i ==> a@[k] == b@[k],
        decreases a.len() - i,
    {
        if a[i] != b[i] {
            return false;
        }
        i = i + 1;
    }
    assert(a@ =~= b@);
    true
}

/// The header, as it is added to a file.
pub open spec fn header_text() -> Seq<char> {
    "\n[pairing]\n"@
}

/// What a new token adds to a file.
pub open spec fn token_text(token: Seq<char>) -> Seq<char> {
    "# Generated on first run -- required in Hello for a client to be accepted.\ntoken = \""@ + token
        + "\"\n"@
}

/// What new keys add to a file.
pub open spec fn keys_text(private_key: Seq<char>, public_key: Seq<char>) -> Seq<char> {
    "# Static Noise keypair -- the public half also goes into the QR/pairing\n# info so clients can TOFU-pin it. See palmtop-proto::noise.\nnoise_private_key = \""@
        + private_key + "\"\nnoise_public_key = \""@ + public_key + "\"\n"@
}

/// Whether a section lacks its token.
pub open spec fn lacks_token(p: PairingView) -> bool {
    p.token.len() == 0
}

/// Whether a section lacks its keys, or one of them.
pub open spec fn lacks_keys(p: PairingView) -> bool {
    p.private_key.len() == 0 || p.public_key.len() == 0
}

/// A section, completed with a token and keys where it lacks them.
pub open spec fn completed(p: PairingView, token: Seq<u8>, private_key: Seq<u8>, public_key: Seq<u8>) -> PairingView {
    PairingView {
        token: if lacks_token(p) {
            hex::hex(token)
        } else {
            p.token
        },
        private_key: if lacks_keys(p) {
            hex::hex(private_key)
        } else {
            p.private_key
        },
        public_key: if lacks_keys(p) {
            hex::hex(public_key)
        } else {
            p.public_key
        },
    }
}

/// What the completion of a section adds to its file: one header, unless the file has one, and
/// what was lacking.
pub open spec fn addition(file: Seq<char>, p: PairingView, q: PairingView) -> Seq<char> {
    (if has_header(file) {
        Seq::empty()
    } else {
        header_text()
    }) + (if lacks_token(p) {
        token_text(q.token)
    } else {
        Seq::empty()
    }) + (if lacks_keys(p) {
        keys_text(q.private_key, q.public_key)
    } else {
        Seq::empty()
    })
}

/// The file, with something added on lines of its own.
pub open spec fn extended(file: Seq<char>, added: Seq<char>) -> Seq<char> {
    (if file.len() > 0 && file.last() == '\n' {
        file
    } else {
        file.push('\n')
    }) + added
}

/// The file to be written for a completed section, if one is.
pub open spec fn rewritten(file: Seq<char>, p: PairingView, q: PairingView) -> Option<Seq<char>> {
    if lacks_token(p) || lacks_keys(p) {
        Some(extended(file, addition(file, p, q)))
    } else {
        None
    }
}

fn ends_with_newline(file: &str) -> (res: bool)
    ensures
        res == (file@.len() > 0 && file@.last() == '\n'),
{
    let v = text::chars_of(file);
    v.len() > 0 && v[v.len() - 1] == '\n'
}

/// What loading leaves: the completed configuration, and the file to be written, if one is.
pub struct Loaded {
    pub config: HostConfig,
    pub rewritten: Option<String>,
}

impl HostConfig {
    /// Completes the pairing section with a token and keys where it lacks them, and extends the
    /// file it was read from by what was lacking. The file is extended as text, so that comments
    /// and formatting stay.
    pub fn completed_with(
        self,
        file: &str,
        token: &[u8],
        private_key: &[u8],
        public_key: &[u8],
    ) -> (res: Loaded)
        ensures
            res.config.host == self.host,
            res.config.gpu == self.gpu,
            res.config.encode == self.encode,
            res.config.pairing@ == completed(self.pairing@, token@, private_key@, public_key@),
            rewritten(file@, self.pairing@, res.config.pairing@) == (match res.rewritten {
                Some(f) => Some(f@),
                None => None,
            }),
    {
        let ghost p = self.pairing@;
        let ghost q = completed(p, token@, private_key@, public_key@);
        let mut cfg = self;
        let no_token = cfg.pairing.token.as_str().is_empty();
        let no_keys = cfg.pairing.noise_private_key.as_str().is_empty()
            || cfg.pairing.noise_public_key.as_str().is_empty();
        let mut appended = String::new();
        if (no_token || no_keys) && !has_pairing_header(file) {
            appended.append("\n[pairing]\n");
        }
        let ghost head = appended@;
        if no_token {
            let token = hex::to_hex(token);
            appended.append(
                "# Generated on first run -- required in Hello for a client to be accepted.\ntoken = \"",
            );
            appended.append(token.as_str());
            appended.append("\"\n");
            cfg.pairing.token = token;
            assert(appended@ =~= head + token_text(q.token));
        }
        let ghost mid = appended@;
        if no_keys {
            let private_hex = hex::to_hex(private_key);
            let public_hex = hex::to_hex(public_key);
            appended.append(
                "# Static Noise keypair -- the public half also goes into the QR/pairing\n# info so clients can TOFU-pin it. See palmtop-proto::noise.\nnoise_private_key = \"",
            );
            appended.append(private_hex.as_str());
            appended.append("\"\nnoise_public_key = \"");
            appended.append(public_hex.as_str());
            appended.append("\"\n");
            cfg.pairing.noise_private_key = private_hex;
            cfg.pairing.noise_public_key = public_hex;
            assert(appended@ =~= mid + keys_text(q.private_key, q.public_key));
        }
        if no_token || no_keys {
            assert(appended@ =~= addition(file@, p, q));
            let mut updated = file.to_owned();
            if !ends_with_newline(file) {
                updated.push('\n');
            }
            updated.append(appended.as_str());
            assert(updated@ =~= extended(file@, addition(file@, p, q)));
            Loaded { config: cfg, rewritten: Some(updated) }
        } else {
            Loaded { config: cfg, rewritten: None }
        }
    }

    /// Loads a configuration as it was read from its file: completes the pairing section, making
    /// keys where it lacks them. It fails only where keys are lacking and none can be made.
    pub fn load(self, file: &str, fresh_token: &[u8]) -> (res: Result<Loaded, NoiseError>)
        ensures
            match res {
                Ok(l) => {
                    &&& l.config.host == self.host
                    &&& l.config.gpu == self.gpu
                    &&& l.config.encode == self.encode
                    &&& exists|private_key: Seq<u8>, public_key: Seq<u8>|
                        {
                            &&& lacks_keys(self.pairing@) ==> private_key.len() == 32
                                && public_key.len() == 32 && public_key == crate::noise::public_half(
                                private_key,
                            )
                            &&& l.config.pairing@ == #[trigger] completed(
                                self.pairing@,
                                fresh_token@,
                                private_key,
                                public_key,
                            )
                        }
                    &&& rewritten(file@, self.pairing@, l.config.pairing@) == (
                    match l.rewritten {
                        Some(f) => Some(f@),
                        None => None,
                    })
                },
                Err(e) => e == NoiseError::Keypair && lacks_keys(self.pairing@),
            },
    {
        let no_keys = self.pairing.noise_private_key.as_str().is_empty()
            || self.pairing.noise_public_key.as_str().is_empty();
        let (private_key, public_key) = if no_keys {
            match NoiseTransport::generate_keypair() {
                Err(e) => {
                    return Err(e);
                },
                Ok(pair) => pair,
            }
        } else {
            (Vec::new(), Vec::new())
        };
        let ghost p = self.pairing@;
        let loaded = self.completed_with(
            file,
            fresh_token,
            private_key.as_slice(),
            public_key.as_slice(),
        );
        assert(loaded.config.pairing@ == completed(p, fresh_token@, private_key@, public_key@));
        Ok(loaded)
    }
}

/// A completed section lacks nothing, so that loading again changes nothing.
pub proof fn completion_is_final(
    p: PairingView,
    token: Seq<u8>,
    private_key: Seq<u8>,
    public_key: Seq<u8>,
    file: Seq<char>,
    q: PairingView,
)
    requires
        token.len() > 0,
        private_key.len() > 0,
        public_key.len() > 0,
    ensures
        ({
            let c = completed(p, token, private_key, public_key);
            &&& !lacks_token(c) && !lacks_keys(c)
            &&& completed(c, token, private_key, public_key) == c
            &&& rewritten(file, c, q) is None
        }),
{
}

/// A file is only ever extended, and the extended file has a header of the pairing section: a line
/// of its own, not a mention.
pub proof fn the_file_is_kept_and_has_a_header(file: Seq<char>, p: PairingView, q: PairingView)
    requires
        lacks_token(p) || lacks_keys(p),
    ensures
        rewritten(file, p, q) matches Some(f) && f.len() >= file.len() && f.take(file.len() as int)
            == file && has_header(f),
{
    let f = rewritten(file, p, q).unwrap();
    assert(f.take(file.len() as int) =~= file);
    if has_header(file) {
        let (i, j) = choose|i: int, j: int| #[trigger]
            is_line(file, i, j) && text::trimmed(file.subrange(i, j)) == "[pairing]"@;
        if j == file.len() && file.len() > 0 && file.last() == '\n' {
            assert(file.subrange(i, j) =~= Seq::<char>::empty());
            reveal_strlit("[pairing]");
        }
        assert forall|k: int| i <= k < j implies f[k] != '\n' by {
            assert(f[k] == file[k]);
        }
        assert(is_line(f, i, j));
        assert(f.subrange(i, j) =~= file.subrange(i, j));
    } else {
        let base = if file.len() > 0 && file.last() == '\n' {
            file.len() as int
        } else {
            file.len() as int + 1
        };
        reveal_strlit("\n[pairing]\n");
        reveal_strlit("[pairing]");
        let (i, j) = (base + 1, base + 10);
        assert(forall|k: int| 0 <= k < 11 ==> f[base + k] == #[trigger] header_text()[k]);
        assert(f[base] == header_text()[0]);
        assert(f.subrange(i, j) =~= "[pairing]"@) by {
            assert forall|k: int| 0 <= k < 9 implies f.subrange(i, j)[k] == "[pairing]"@[k] by {
                assert(f[base + (k + 1)] == header_text()[k + 1]);
            }
        }
        assert(f[j] == header_text()[10]);
        assert(is_line(f, i, j)) by {
            assert forall|k: int| i <= k < j implies f[k] != '\n' by {
                assert(f[k] == f.subrange(i, j)[k - i]);
            }
        }
        text::lemma_trimmed_as_is("[pairing]"@);
    }
}

/// Whether a text has no opening bracket, and so no header.
spec fn free_of_brackets(s: Seq<char>) -> bool {
    forall|k: int| 0 <= k < s.len() ==> s[k] != '['
}

proof fn lemma_values_are_free_of_brackets(
    p: PairingView,
    token: Seq<u8>,
    private_key: Seq<u8>,
    public_key: Seq<u8>,
)
    ensures
        lacks_token(p) ==> free_of_brackets(
            token_text(completed(p, token, private_key, public_key).token),
        ),
        lacks_keys(p) ==> ({
            let q = completed(p, token, private_key, public_key);
            free_of_brackets(keys_text(q.private_key, q.public_key))
        }),
{
    assert(free_of_brackets(hex::hex(token)));
    assert(free_of_brackets(hex::hex(private_key)));
    assert(free_of_brackets(hex::hex(public_key)));
    reveal_strlit(
        "# Generated on first run -- required in Hello for a client to be accepted.\ntoken = \"",
    );
    reveal_strlit("\"\n");
    reveal_strlit(
        "# Static Noise keypair -- the public half also goes into the QR/pairing\n# info so clients can TOFU-pin it. See palmtop-proto::noise.\nnoise_private_key = \"",
    );
    reveal_strlit("\"\nnoise_public_key = \"");
}

/// Completing a section adds one header at most: the headers in the extended file are those in the
/// file, and one at the start of what is added where the file has none.
pub proof fn the_header_is_added_once(
    file: Seq<char>,
    p: PairingView,
    token: Seq<u8>,
    private_key: Seq<u8>,
    public_key: Seq<u8>,
    i: int,
    j: int,
)
    requires
        lacks_token(p) || lacks_keys(p),
        ({
            let f = rewritten(file, p, completed(p, token, private_key, public_key)).unwrap();
            is_line(f, i, j) && text::trimmed(f.subrange(i, j)) == "[pairing]"@
        }),
    ensures
        i < file.len() ==> is_line(file, i, j) && text::trimmed(file.subrange(i, j))
            == "[pairing]"@,
        i >= file.len() ==> !has_header(file) && i == extended(file, Seq::empty()).len() + 1,
{
    let q = completed(p, token, private_key, public_key);
    let f = rewritten(file, p, q).unwrap();
    let base = extended(file, Seq::empty()).len() as int;
    let line = f.subrange(i, j);
    reveal_strlit("[pairing]");
    assert("[pairing]"@[0] == '[');
    text::lemma_trimmed_contains(line, '[');
    let k = choose|k: int| 0 <= k < line.len() && line[k] == '[';
    assert(f[i + k] == '[');
    assert(f[base - 1] == '\n' || base == 0);
    if i < file.len() {
        if j >= base {
            assert(f[base - 1] != '\n');
        }
        assert forall|m: int| i <= m < j implies file[m] != '\n' by {
            assert(f[m] == file[m]);
        }
        if i > 0 {
            assert(f[i - 1] == file[i - 1]);
        }
        if j < file.len() {
            assert(f[j] == file[j]);
        }
        assert(is_line(file, i, j));
        assert(file.subrange(i, j) =~= line);
    } else {
        lemma_values_are_free_of_brackets(p, token, private_key, public_key);
        let head = if has_header(file) {
            Seq::empty()
        } else {
            header_text()
        };
        if i < base {
            assert(base == file.len() + 1 && i == file.len());
            assert(f[i] == '\n');
        }
        reveal_strlit("\n[pairing]\n");
        let at = i + k - base;
        assert(f[i + k] == addition(file, p, q)[at]);
        if at >= head.len() {
            let t = if lacks_token(p) {
                token_text(q.token)
            } else {
                Seq::empty()
            };
            if at < head.len() + t.len() {
                assert(addition(file, p, q)[at] == t[at - head.len()]);
            } else {
                assert(addition(file, p, q)[at] == keys_text(q.private_key, q.public_key)[at
                    - head.len() - t.len()]);
            }
        }
        assert(f[base + at] == header_text()[at]);
        assert(at == 1);
        assert(f[base] == header_text()[0]);
        if i <= base {
            assert(f[base] != '\n');
        }
    }
}

/// The message for a host file that is not there.
pub fn missing_host_file(path: &str) -> (res: String)
    ensures
        res@ == "missing "@ + path@
            + "\n\nCreate it from the template:\n    cp config/host.example.toml config/host.toml\nThen edit it, or run ./scripts/probe-host.sh to generate one."@,
{
    let mut out = "missing ".to_owned();
    out.append(path);
    out.append(
        "\n\nCreate it from the template:\n    cp config/host.example.toml config/host.toml\nThen edit it, or run ./scripts/probe-host.sh to generate one.",
    );
    out
}

impl HostConfig {
    /// The configured address, or, where it is left blank, the one that was detected; an error where
    /// none was, with the reason for that.
    pub fn resolved_ip(&self, detected: Result<String, String>) -> (res: Result<String, NoAddress>)
        ensures
            self.host.ip@.len() > 0 ==> res is Ok && res.unwrap()@ == self.host.ip@,
            self.host.ip@.len() == 0 ==> (match (detected, res) {
                (Ok(d), Ok(ip)) => ip == d,
                (Err(cause), Err(e)) => e.cause == cause,
                _ => false,
            }),
    {
        if !self.host.ip.as_str().is_empty() {
            return Ok(self.host.ip.clone());
        }
        match detected {
            Ok(ip) => Ok(ip),
            Err(cause) => Err(NoAddress { cause }),
        }
    }
}

/// No address is configured, and none could be detected, for this reason.
#[derive(Debug, Clone, PartialEq, Eq)]
pub struct NoAddress {
    pub cause: String,
}

/// What is said where there is no address.
pub const NO_ADDRESS: &'static str =
    "could not auto-detect host IP -- set `ip` explicitly in config/host.toml";

/// What is said where there is no address, and why.
pub open spec fn no_address_text(cause: Seq<char>) -> Seq<char> {
    NO_ADDRESS@ + ": "@ + cause
}

impl NoAddress {
    /// What is said of the error, without its cause.
    pub fn to_string(&self) -> (res: String)
        ensures
            res@ == NO_ADDRESS@,
    {
        NO_ADDRESS.to_owned()
    }

    /// What is said of the error, with its cause.
    pub fn with_cause(&self) -> (res: String)
        ensures
            res@ == no_address_text(self.cause@),
    {
        let mut out = NO_ADDRESS.to_owned();
        out.append(": ");
        out.append(self.cause.as_str());
        out
    }
}

// ---- devices ----

/// An IEEE 754 double-precision number, held by its bit pattern.
#[derive(Debug, Clone, Copy, PartialEq, Eq, Structural)]
pub struct F64(pub u64);

#[derive(Debug)]
pub struct DeviceConfig {
    pub device: DeviceSection,
    pub adb: AdbSection,
    pub display: DisplaySection,
    pub decoder: DecoderSection,
    pub limits: LimitsSection,
}

#[derive(Debug)]
pub struct DeviceSection {
    pub name: String,
    pub model: String,
    pub sdk: u32,
}

#[derive(Debug)]
pub struct AdbSection {
    pub serial: String,
    pub ip: String,
}

#[derive(Debug)]
pub struct DisplaySection {
    pub width: u32,
    pub height: u32,
    pub density: u32,
    pub refresh_hz: F64,
}

#[derive(Debug)]
pub struct DecoderSection {
    /// Empty means that the client selects one.
    pub h264: String,
    pub h265: String,
}

#[derive(Debug)]
pub struct LimitsSection {
    pub max_width: u32,
    pub max_height: u32,
    pub max_fps: u32,
}

impl Default for DisplaySection {
    fn default() -> (res: Self)
        ensures
            res == (DisplaySection { width: 0, height: 0, density: 0, refresh_hz: F64(0) }),
    {
        DisplaySection { width: 0, height: 0, density: 0, refresh_hz: F64(0) }
    }
}

impl Default for DecoderSection {
    fn default() -> (res: Self)
        ensures
            res.h264@.len() == 0,
            res.h265@.len() == 0,
    {
        DecoderSection { h264: String::new(), h265: String::new() }
    }
}

impl Default for LimitsSection {
    fn default() -> (res: Self)
        ensures
            res == (LimitsSection { max_width: 1920, max_height: 1080, max_fps: 30 }),
    {
        LimitsSection { max_width: default_w(), max_height: default_h(), max_fps: default_fps() }
    }
}

pub fn default_w() -> (res: u32)
    ensures
        res == 1920,
{
    1920
}

pub fn default_h() -> (res: u32)
    ensures
        res == 1080,
{
    1080
}

/// Which device is meant: the one that the environment names, unless it names a blank one, and
/// otherwise the one in the file of the active device.
pub open spec fn selected(environment: Option<Seq<char>>, active: Option<Seq<char>>) -> Option<
    Seq<char>,
> {
    match environment {
        Some(n) if text::trimmed(n).len() > 0 => Some(text::trimmed(n)),
        _ => match active {
            Some(a) => Some(text::trimmed(a)),
            None => None,
        },
    }
}

/// The name of the profile in a file of this name: what stands before `.toml`, where something
/// does. The template is no profile.
pub open spec fn profile_in(file: Seq<char>) -> Option<Seq<char>> {
    let n = file.len() - 5;
    if n > 0 && file.skip(n) == ".toml"@ && file.take(n) != "example"@ {
        Some(file.take(n))
    } else {
        None
    }
}

/// The profiles in files of these names, each as often as it is there.
pub open spec fn profiles_in(files: Seq<Seq<char>>) -> vstd::multiset::Multiset<Seq<char>>
    decreases files.len(),
{
    if files.len() == 0 {
        vstd::multiset::Multiset::empty()
    } else {
        match profile_in(files.last()) {
            Some(p) => profiles_in(files.drop_last()).insert(p),
            None => profiles_in(files.drop_last()),
        }
    }
}

/// The list of profiles, as it is shown.
pub open spec fn listing(available: Seq<Seq<char>>) -> Seq<char> {
    if available.len() == 0 {
        "  (none yet)"@
    } else {
        text::joined(available.map_values(|n: Seq<char>| "  "@ + n), "\n"@)
    }
}

/// What is said where no device is selected.
pub open spec fn no_device_text(dir: Seq<char>, available: Seq<Seq<char>>) -> Seq<char> {
    "No device selected.\n\nAvailable profiles in "@ + dir + ":\n"@ + listing(available)
        + "\n\nPick one with either:\n    echo <name> > config/active\n    PALMTOP_DEVICE=<name> <command>\n\nCreate one with:\n    ./scripts/probe-device.sh <adb-serial>"@
}

fn profile_name(file: &str) -> (res: Option<String>)
    ensures
        profile_in(file@) == (match res {
            Some(p) => Some(p@),
            None => None,
        }),
{
    let v = text::chars_of(file);
    if v.len() <= 5 {
        return None;
    }
    let n: usize = v.len() - 5;
    let (stem, tail) = v.as_slice().split_at(n);
    assert(stem@ =~= file@.take(n as int));
    assert(tail@ =~= file@.skip(n as int));
    let stem = text::string_of(stem);
    let tail = text::string_of(tail);
    if text::same(tail.as_str(), ".toml") && !text::same(stem.as_str(), "example") {
        Some(stem)
    } else {
        None
    }
}

impl DeviceConfig {
    /// The name of the device to load, from the environment variable and the file of the active
    /// device, as far as they are there.
    pub fn selected(environment: Option<&str>, active: Option<&str>) -> (res: Option<String>)
        ensures
            self::selected(
                match environment {
                    Some(n) => Some(n@),
                    None => None,
                },
                match active {
                    Some(a) => Some(a@),
                    None => None,
                },
            ) == (match res {
                Some(n) => Some(n@),
                None => None,
            }),
    {
        if let Some(n) = environment {
            let name = text::trim(n);
            if !name.as_str().is_empty() {
                return Some(name);
            }
        }
        match active {
            Some(a) => Some(text::trim(a)),
            None => None,
        }
    }

    /// The message for a device whose profile is not there.
    pub fn missing_profile(name: &str, path: &str, dir: &str, available: &Vec<String>) -> (res: String)
        ensures
            res@ == "no device profile '"@ + name@ + "' at "@ + path@ + "\n"@ + no_device_text(
                dir@,
                text::views(available@),
            ),
    {
        let mut out = "no device profile '".to_owned();
        out.append(name);
        out.append("' at ");
        out.append(path);
        out.append("\n");
        out.append(no_device_help(dir, available).as_str());
        out
    }

    /// The profiles in a directory with files of these names, in order.
    pub fn available(files: &Vec<String>) -> (res: Vec<String>)
        ensures
            text::sorted(text::views(res@)),
            text::views(res@).to_multiset() == profiles_in(text::views(files@)),
    {
        let ghost all = text::views(files@);
        let mut out: Vec<String> = Vec::new();
        let mut i: usize = 0;
        proof {
            assert(text::views(out@) =~= Seq::<Seq<char>>::empty());
            text::views(out@).to_multiset_ensures();
            assert(text::views(out@).to_multiset() =~= vstd::multiset::Multiset::empty());
            assert(all.take(0) =~= Seq::<Seq<char>>::empty());
        }
        while i < files.len()
            invariant
                i <= files.len(),
                all == text::views(files@),
                text::sorted(text::views(out@)),
                text::views(out@).to_multiset() == profiles_in(all.take(i as int)),
            decreases files.len() - i,
        {
            proof {
                assert(all.take(i + 1).drop_last() =~= all.take(i as int));
                assert(all.take(i + 1).last() == files@[i as int]@);
            }
            if let Some(p) = profile_name(files[i].as_str()) {
                text::insert_sorted(&mut out, p);
            }
            i = i + 1;
        }
        assert(all.take(i as int) =~= all);
        out
    }
}

/// What is said where no device is selected.
pub fn no_device_help(dir: &str, available: &Vec<String>) -> (res: String)
    ensures
        res@ == no_device_text(dir@, text::views(available@)),
{
    let list = if available.len() == 0 {
        "  (none yet)".to_owned()
    } else {
        let ghost f = |n: Seq<char>| "  "@ + n;
        let ghost all = text::views(available@);
        let mut rows: Vec<String> = Vec::new();
        let mut i: usize = 0;
        while i < available.len()
            invariant
                i <= available.len(),
                all == text::views(available@),
                f == (|n: Seq<char>| "  "@ + n),
                text::views(rows@) == all.take(i as int).map_values(f),
            decreases available.len() - i,
        {
            let row = "  ".to_owned().concat(available[i].as_str());
            text::push_text(&mut rows, row.as_str());
            assert(text::views(rows@) =~= all.take(i + 1).map_values(f));
            i = i + 1;
        }
        assert(all.take(i as int) =~= all);
        text::join(&rows, "\n")
    };
    let mut out = "No device selected.\n\nAvailable profiles in ".to_owned();
    out.append(dir);
    out.append(":\n");
    out.append(list.as_str());
    out.append(
        "\n\nPick one with either:\n    echo <name> > config/active\n    PALMTOP_DEVICE=<name> <command>\n\nCreate one with:\n    ./scripts/probe-device.sh <adb-serial>",
    );
    out
}

// ---- where the files are ----

/// A directory: a root, and the names to descend by.
pub struct Directory {
    pub root: String,
    pub below: Vec<String>,
}

/// What the search for the directory of the configuration has to go by.
pub struct Surroundings {
    /// The directory that the environment names outright.
    pub explicit: Option<String>,
    /// The nearest directory, from the current one up, under which the template is found.
    pub checkout: Option<String>,
    /// `XDG_CONFIG_HOME`, or `APPDATA` on Windows.
    pub config_home: Option<String>,
    pub home: Option<String>,
    pub windows: bool,
}

/// Where the configuration is: the root, and the names to descend by.
pub open spec fn config_place(s: Surroundings) -> Option<(Seq<char>, Seq<Seq<char>>)> {
    match s.explicit {
        Some(d) => Some((d@, Seq::<Seq<char>>::empty())),
        None => match s.checkout {
            Some(d) => Some((d@, seq!["config"@])),
            None => match s.config_home {
                Some(d) => Some((d@, seq!["palmtop"@])),
                None => match s.home {
                    Some(d) if !s.windows => Some((d@, seq![".config"@, "palmtop"@])),
                    _ => None,
                },
            },
        },
    }
}

/// The directory of the configuration: the one that is named outright, or else the one of a
/// checkout, or else the one of the user.
pub fn config_dir(s: Surroundings) -> (res: Result<Directory, String>)
    ensures
        match res {
            Ok(d) => config_place(s) == Some((d.root@, text::views(d.below@))),
            Err(e) => config_place(s) is None && e@ == (if s.windows {
                "could not locate the config directory -- %APPDATA% is not set; set PALMTOP_CONFIG_DIR explicitly"@
            } else {
                "could not locate the config/ directory, and neither XDG_CONFIG_HOME nor HOME is set to fall back to -- set PALMTOP_CONFIG_DIR explicitly"@
            }),
        },
{
    let mut below: Vec<String> = Vec::new();
    proof {
        assert(text::views(below@) =~= Seq::<Seq<char>>::empty());
    }
    if let Some(root) = s.explicit {
        return Ok(Directory { root, below });
    }
    if let Some(root) = s.checkout {
        text::push_text(&mut below, "config");
        return Ok(Directory { root, below });
    }
    if let Some(root) = s.config_home {
        text::push_text(&mut below, "palmtop");
        return Ok(Directory { root, below });
    }
    if s.windows {
        return Err(
            "could not locate the config directory -- %APPDATA% is not set; set PALMTOP_CONFIG_DIR explicitly".to_owned(),
        );
    }
    match s.home {
        Some(root) => {
            text::push_text(&mut below, ".config");
            text::push_text(&mut below, "palmtop");
            Ok(Directory { root, below })
        },
        None => Err(
            "could not locate the config/ directory, and neither XDG_CONFIG_HOME nor HOME is set to fall back to -- set PALMTOP_CONFIG_DIR explicitly".to_owned(),
        ),
    }
}

// ---- laws ----

/// A token that is there is kept, and an empty one is made anew; the keys are kept where both are
/// there, and else both are made anew, so that they always belong together. What is made is written in
/// hexadecimal.
pub proof fn what_is_there_is_kept(
    p: PairingView,
    token: Seq<u8>,
    private_key: Seq<u8>,
    public_key: Seq<u8>,
)
    ensures
        ({
            let q = completed(p, token, private_key, public_key);
            &&& p.token.len() > 0 ==> q.token == p.token
            &&& p.token.len() == 0 ==> q.token == hex::hex(token)
            &&& p.private_key.len() > 0 && p.public_key.len() > 0 ==> q.private_key == p.private_key
                && q.public_key == p.public_key
            &&& p.private_key.len() == 0 || p.public_key.len() == 0 ==> q.private_key == hex::hex(
                private_key,
            ) && q.public_key == hex::hex(public_key)
        }),
{
}

proof fn lemma_line_of_part(a: Seq<char>, b: Seq<char>, i: int, j: int)
    ensures
        is_line(a + seq!['\n'] + b, i, j) && i <= a.len() ==> is_line(a, i, j) && (a + seq!['\n']
            + b).subrange(i, j) == a.subrange(i, j),
        is_line(a + seq!['\n'] + b, i, j) && i > a.len() ==> is_line(
            b,
            i - a.len() - 1,
            j - a.len() - 1,
        ) && (a + seq!['\n'] + b).subrange(i, j) == b.subrange(i - a.len() - 1, j - a.len() - 1),
        is_line(a, i, j) ==> is_line(a + seq!['\n'] + b, i, j) && (a + seq!['\n'] + b).subrange(i, j)
            == a.subrange(i, j),
        is_line(b, i, j) ==> is_line(a + seq!['\n'] + b, i + a.len() + 1, j + a.len() + 1) && (a
            + seq!['\n'] + b).subrange(i + a.len() + 1, j + a.len() + 1) == b.subrange(i, j),
{
    let s = a + seq!['\n'] + b;
    let n = a.len() as int + 1;
    assert(s[n - 1] == '\n');
    if is_line(s, i, j) && i <= a.len() {
        if j >= n {
            assert(s[n - 1] != '\n');
        }
        assert forall|k: int| i <= k < j implies a[k] != '\n' by {
            assert(s[k] == a[k]);
        }
        assert(i == 0 || s[i - 1] == a[i - 1]);
        assert(s.subrange(i, j) =~= a.subrange(i, j));
    }
    if is_line(s, i, j) && i > a.len() {
        assert forall|k: int| i - n <= k < j - n implies b[k] != '\n' by {
            assert(s[k + n] == b[k]);
        }
        assert(i == n || s[i - 1] == b[i - 1 - n]);
        assert(j == s.len() || s[j] == b[j - n]);
        assert(s.subrange(i, j) =~= b.subrange(i - n, j - n));
    }
    if is_line(a, i, j) {
        assert forall|k: int| i <= k < j implies s[k] != '\n' by {
            assert(s[k] == a[k]);
        }
        assert(s.subrange(i, j) =~= a.subrange(i, j));
    }
    if is_line(b, i, j) {
        assert forall|k: int| i + n <= k < j + n implies s[k] != '\n' by {
            assert(s[k] == b[k - n]);
        }
        assert(s.subrange(i + n, j + n) =~= b.subrange(i, j));
    }
}

/// A file has the header where one of its lines is it: two pieces of a file with a line break between
/// them have it where one of them has.
pub proof fn a_header_is_in_one_of_the_lines(a: Seq<char>, b: Seq<char>)
    ensures
        has_header(a + seq!['\n'] + b) <==> has_header(a) || has_header(b),
{
    let s = a + seq!['\n'] + b;
    if has_header(s) {
        let (i, j) = choose|i: int, j: int| #[trigger]
            is_line(s, i, j) && text::trimmed(s.subrange(i, j)) == "[pairing]"@;
        lemma_line_of_part(a, b, i, j);
    }
    if has_header(a) {
        let (i, j) = choose|i: int, j: int| #[trigger]
            is_line(a, i, j) && text::trimmed(a.subrange(i, j)) == "[pairing]"@;
        lemma_line_of_part(a, b, i, j);
    }
    if has_header(b) {
        let (i, j) = choose|i: int, j: int| #[trigger]
            is_line(b, i, j) && text::trimmed(b.subrange(i, j)) == "[pairing]"@;
        lemma_line_of_part(a, b, i, j);
    }
}

/// A line is the header where it is `[pairing]` but for white space around it.
pub proof fn a_line_is_the_header_or_not(line: Seq<char>)
    requires
        forall|k: int| 0 <= k < line.len() ==> line[k] != '\n',
    ensures
        has_header(line) <==> text::trimmed(line) == "[pairing]"@,
{
    let n = line.len() as int;
    assert(is_line(line, 0, n));
    assert(line.subrange(0, n) =~= line);
    if has_header(line) {
        let (i, j) = choose|i: int, j: int| #[trigger]
            is_line(line, i, j) && text::trimmed(line.subrange(i, j)) == "[pairing]"@;
        assert(i == 0 && j == n);
    }
}

/// What is added to a file, on a line of its own: the header where the file has none, the new token
/// where it had none, and the new keys where it lacked one. A file that lacks nothing is not written.
pub proof fn what_is_added_is_what_was_lacking(file: Seq<char>, p: PairingView, q: PairingView)
    ensures
        ({
            let start = if file.len() > 0 && file.last() == '\n' {
                file
            } else {
                file + seq!['\n']
            };
            let head = if has_header(file) {
                Seq::empty()
            } else {
                "\n[pairing]\n"@
            };
            let token =
                "# Generated on first run -- required in Hello for a client to be accepted.\ntoken = \""@
                + q.token + "\"\n"@;
            let keys =
                "# Static Noise keypair -- the public half also goes into the QR/pairing\n# info so clients can TOFU-pin it. See palmtop-proto::noise.\nnoise_private_key = \""@
                + q.private_key + "\"\nnoise_public_key = \""@ + q.public_key + "\"\n"@;
            let has_token = p.token.len() > 0;
            let has_keys = p.private_key.len() > 0 && p.public_key.len() > 0;
            &&& has_token && has_keys ==> rewritten(file, p, q) is None
            &&& !has_token && has_keys ==> rewritten(file, p, q) == Some(start + head + token)
            &&& has_token && !has_keys ==> rewritten(file, p, q) == Some(start + head + keys)
            &&& !has_token && !has_keys ==> rewritten(file, p, q) == Some(
                start + head + token + keys,
            )
        }),
{
    let start = if file.len() > 0 && file.last() == '\n' {
        file
    } else {
        file + seq!['\n']
    };
    assert(file.push('\n') =~= file + seq!['\n']);
    let head = if has_header(file) {
        Seq::empty()
    } else {
        "\n[pairing]\n"@
    };
    let none = Seq::<char>::empty();
    let token = token_text(q.token);
    let keys = keys_text(q.private_key, q.public_key);
    assert(start + (head + token + none) =~= start + head + token);
    assert(start + (head + none + keys) =~= start + head + keys);
    assert(start + (head + token + keys) =~= start + head + token + keys);
}

/// The device that the environment names goes before the one in the file, unless the name is blank;
/// where neither is there none is meant. White space around a name is not part of it.
pub proof fn the_environment_goes_before_the_file(named: Seq<char>, active: Option<Seq<char>>)
    ensures
        text::trimmed(named).len() > 0 ==> selected(Some(named), active) == Some(
            text::trimmed(named),
        ),
        text::trimmed(named).len() == 0 ==> selected(Some(named), active) == selected(None, active),
        active matches Some(a) ==> selected(None, active) == Some(text::trimmed(a)),
        selected(None, None) is None,
{
}

/// A file is a profile where its name ends in `.toml`, with something in front that is not `example`;
/// that is the name of the profile.
pub proof fn profiles_are_named_by_their_files(name: Seq<char>, file: Seq<char>)
    ensures
        name.len() > 0 && name != "example"@ ==> profile_in(name + ".toml"@) == Some(name),
        profile_in("example"@ + ".toml"@) is None,
        profile_in(".toml"@) is None,
        profile_in(file) matches Some(p) ==> file == p + ".toml"@ && p.len() > 0 && p != "example"@,
{
    reveal_strlit(".toml");
    let f = name + ".toml"@;
    assert(f.take(name.len() as int) =~= name);
    assert(f.skip(name.len() as int) =~= ".toml"@);
    let e = "example"@ + ".toml"@;
    assert(e.take("example"@.len() as int) =~= "example"@);
    if let Some(p) = profile_in(file) {
        assert(file =~= p + ".toml"@);
    }
}

/// Each file counts for itself, in whatever order they come: one that is a profile adds it, and any
/// other adds nothing.
pub proof fn each_file_counts_for_itself(files: Seq<Seq<char>>, file: Seq<char>)
    ensures
        profile_in(file) matches Some(p) ==> profiles_in(files.push(file)) == profiles_in(
            files,
        ).insert(p),
        profile_in(file) is None ==> profiles_in(files.push(file)) == profiles_in(files),
        profiles_in(Seq::empty()) == vstd::multiset::Multiset::<Seq<char>>::empty(),
{
    assert(files.push(file).drop_last() =~= files);
}

/// Profiles are shown one to a line, indented, in the order in which they are given; where there are
/// none, that is said.
pub proof fn profiles_are_shown_line_by_line(available: Seq<Seq<char>>, name: Seq<char>)
    ensures
        listing(Seq::empty()) == "  (none yet)"@,
        listing(seq![name]) == "  "@ + name,
        available.len() > 0 ==> listing(available.push(name)) == listing(available) + "\n"@ + ("  "@
            + name),
{
    let f = |n: Seq<char>| "  "@ + n;
    let none = Seq::<Seq<char>>::empty();
    assert(seq![name].map_values(f) =~= seq!["  "@ + name]);
    assert(available.push(name).map_values(f) =~= available.map_values(f).push("  "@ + name));
    text::separators_stand_between(available.map_values(f), "  "@ + name, "\n"@);
    text::separators_stand_between(none, "  "@ + name, "\n"@);
    assert(none.push("  "@ + name) =~= seq!["  "@ + name]);
}

/// Where no device is selected, the directory and the profiles in it are named, and how to select one
/// and how to make one.
pub proof fn a_missing_device_is_explained(dir: Seq<char>, available: Seq<Seq<char>>)
    ensures
        no_device_text(dir, available) == "No device selected.\n\nAvailable profiles in "@ + dir
            + ":\n"@ + listing(available)
            + "\n\nPick one with either:\n    echo <name> > config/active\n    PALMTOP_DEVICE=<name> <command>\n\nCreate one with:\n    ./scripts/probe-device.sh <adb-serial>"@,
{
}

/// A missing address is told with its cause behind it.
pub proof fn a_missing_address_is_told_with_its_cause(cause: Seq<char>)
    ensures
        no_address_text(cause)
            == "could not auto-detect host IP -- set `ip` explicitly in config/host.toml"@ + ": "@
            + cause,
{
}

/// Where the configuration is looked for: a directory that is named outright is it; else that of a
/// checkout, else that of the user, else, but for Windows, the one below the user's home. Without any
/// of these there is none.
pub proof fn the_nearest_configuration_counts(s: Surroundings)
    ensures
        s.explicit matches Some(d) ==> config_place(s) == Some((d@, Seq::<Seq<char>>::empty())),
        s.explicit is None ==> (s.checkout matches Some(d) ==> config_place(s) == Some(
            (d@, seq!["config"@]),
        )),
        s.explicit is None && s.checkout is None ==> (s.config_home matches Some(d)
            ==> config_place(s) == Some((d@, seq!["palmtop"@]))),
        s.explicit is None && s.checkout is None && s.config_home is None && !s.windows ==> (
        s.home matches Some(d) ==> config_place(s) == Some((d@, seq![".config"@, "palmtop"@]))),
        s.explicit is None && s.checkout is None && s.config_home is None && (s.windows
            || s.home is None) ==> config_place(s) is None,
{
}

/// What is taken where nothing is configured: the port 9999, the codec `h264_vaapi` at the quality 24
/// and at 30 frames a second, with one frame in work; and of a device, 1920 by 1080 pixels.
pub proof fn what_is_taken_where_nothing_is_configured(
    port: u16,
    codec: String,
    qp: u32,
    fps: u32,
    depth: u32,
    width: u32,
    height: u32,
)
    requires
        call_ensures(default_port, (), port),
        call_ensures(default_codec, (), codec),
        call_ensures(default_qp, (), qp),
        call_ensures(default_fps, (), fps),
        call_ensures(default_async_depth, (), depth),
        call_ensures(default_w, (), width),
        call_ensures(default_h, (), height),
    ensures
        port == 9999,
        codec@ == "h264_vaapi"@,
        qp == 24,
        fps == 30,
        depth == 1,
        (width, height) == (1920u32, 1080u32),
{
}

/// The configured address is used as it is, whatever was detected; where it is blank, the detected one
/// is; and where there is none of these, the reason is kept.
pub proof fn the_configured_address_goes_first(
    cfg: &HostConfig,
    detected: Result<String, String>,
    res: Result<String, NoAddress>,
)
    requires
        call_ensures(HostConfig::resolved_ip, (cfg, detected), res),
    ensures
        cfg.host.ip@.len() > 0 ==> (res matches Ok(ip) && ip@ == cfg.host.ip@),
        cfg.host.ip@.len() == 0 ==> (detected matches Ok(d) ==> res == Ok::<String, NoAddress>(d)),
        cfg.host.ip@.len() == 0 ==> (detected matches Err(cause) ==> (res matches Err(e) && e.cause
            == cause)),
{
}

/// A configuration that is loaded keeps what is no part of the pairing, and every part of the pairing
/// that it has; keys that it lacks are a pair. Loading fails only where keys have to be made.
pub proof fn loading_keeps_what_is_there(
    cfg: HostConfig,
    file: &str,
    fresh_token: &[u8],
    res: Result<Loaded, NoiseError>,
)
    requires
        call_ensures(HostConfig::load, (cfg, file, fresh_token), res),
    ensures
        ({
            let p = cfg.pairing@;
            let has_keys = p.private_key.len() > 0 && p.public_key.len() > 0;
            &&& has_keys ==> res is Ok
            &&& res matches Ok(l) ==> {
                let q = l.config.pairing@;
                &&& l.config.host == cfg.host && l.config.gpu == cfg.gpu && l.config.encode
                    == cfg.encode
                &&& p.token.len() > 0 ==> q.token == p.token
                &&& p.token.len() == 0 ==> q.token == hex::hex(fresh_token@)
                &&& has_keys ==> q.private_key == p.private_key && q.public_key == p.public_key
                &&& p.token.len() > 0 && has_keys ==> l.rewritten is None
                &&& p.token.len() == 0 || !has_keys ==> l.rewritten is Some
            }
        }),
{
}

/// A section is seen as it is.
pub proof fn a_pairing_section_is_seen_as_it_is(p: PairingSection)
    ensures
        p@ == (PairingView {
            token: p.token@,
            private_key: p.noise_private_key@,
            public_key: p.noise_public_key@,
        }),
{
}

/// Where there is no configuration, the search says what it went by: on Windows one variable, and else
/// two.
pub proof fn a_search_in_vain_says_what_it_went_by(s: Surroundings, res: Result<Directory, String>)
    requires
        call_ensures(config_dir, (s,), res),
    ensures
        res is Ok <==> config_place(s) is Some,
        res matches Ok(d) ==> config_place(s) == Some((d.root@, text::views(d.below@))),
        res matches Err(e) ==> e@ == (if s.windows {
            "could not locate the config directory -- %APPDATA% is not set; set PALMTOP_CONFIG_DIR explicitly"@
        } else {
            "could not locate the config/ directory, and neither XDG_CONFIG_HOME nor HOME is set to fall back to -- set PALMTOP_CONFIG_DIR explicitly"@
        }),
{
}

/// What is missing is named with its path: the host's file, and the profile of a device, with what
/// profiles there are.
pub proof fn what_is_missing_is_named(
    path: &str,
    name: &str,
    dir: &str,
    available: &Vec<String>,
    host: String,
    device: String,
)
    requires
        call_ensures(missing_host_file, (path,), host),
        call_ensures(DeviceConfig::missing_profile, (name, path, dir, available), device),
    ensures
        host@ == "missing "@ + path@
            + "\n\nCreate it from the template:\n    cp config/host.example.toml config/host.toml\nThen edit it, or run ./scripts/probe-host.sh to generate one."@,
        device@ == "no device profile '"@ + name@ + "' at "@ + path@ + "\n"@ + no_device_text(
            dir@,
            text::views(available@),
        ),
{
}

} // verus!
