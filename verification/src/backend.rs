//! The encoder that a machine can run: which ones are tried, in which order, and which is taken.
//!
//! Whether an encoder works is found out by encoding through it, which the program around this
//! does; here is what it tries.
use vstd::prelude::*;

use crate::config::HostConfig;
use crate::text;

verus! {

/// An encoder of ffmpeg's, and what is needed to run it.
#[derive(Debug, Clone, PartialEq, Eq)]
pub enum EncodeBackend {
    /// On Linux, through a render node under `/dev/dri`.
    Vaapi { render_node: String },
    Nvenc,
    /// Intel Quick Sync, on Windows.
    Qsv,
    /// AMD AMF, on Windows.
    Amf,
    Software,
}

/// An `EncodeBackend` with its node as a sequence.
#[verifier::ext_equal]
pub enum BackendView {
    Vaapi { render_node: Seq<char> },
    Nvenc,
    Qsv,
    Amf,
    Software,
}

impl View for EncodeBackend {
    type V = BackendView;

    open spec fn view(&self) -> BackendView {
        match *self {
            EncodeBackend::Vaapi { render_node } => BackendView::Vaapi { render_node: render_node@ },
            EncodeBackend::Nvenc => BackendView::Nvenc,
            EncodeBackend::Qsv => BackendView::Qsv,
            EncodeBackend::Amf => BackendView::Amf,
            EncodeBackend::Software => BackendView::Software,
        }
    }
}

/// The name that ffmpeg has for an encoder.
pub open spec fn codec_of(b: BackendView) -> Seq<char> {
    match b {
        BackendView::Vaapi { .. } => "h264_vaapi"@,
        BackendView::Nvenc => "h264_nvenc"@,
        BackendView::Qsv => "h264_qsv"@,
        BackendView::Amf => "h264_amf"@,
        BackendView::Software => "libx264"@,
    }
}

/// The name that people have for an encoder.
pub open spec fn label_of(b: BackendView) -> Seq<char> {
    match b {
        BackendView::Vaapi { render_node } => "VA-API on "@ + render_node,
        BackendView::Nvenc => "NVENC"@,
        BackendView::Qsv => "Intel Quick Sync (QSV)"@,
        BackendView::Amf => "AMD AMF"@,
        BackendView::Software => "software (libx264)"@,
    }
}

impl EncodeBackend {
    pub fn codec_name(&self) -> (res: &'static str)
        ensures
            res@ == codec_of(self@),
    {
        match self {
            EncodeBackend::Vaapi { .. } => "h264_vaapi",
            EncodeBackend::Nvenc => "h264_nvenc",
            EncodeBackend::Qsv => "h264_qsv",
            EncodeBackend::Amf => "h264_amf",
            EncodeBackend::Software => "libx264",
        }
    }

    /// The encoder as people know it.
    pub fn to_string(&self) -> (res: String)
        ensures
            res@ == label_of(self@),
    {
        match self {
            EncodeBackend::Vaapi { render_node } => {
                let mut out = "VA-API on ".to_owned();
                out.append(render_node.as_str());
                out
            },
            EncodeBackend::Nvenc => "NVENC".to_owned(),
            EncodeBackend::Qsv => "Intel Quick Sync (QSV)".to_owned(),
            EncodeBackend::Amf => "AMD AMF".to_owned(),
            EncodeBackend::Software => "software (libx264)".to_owned(),
        }
    }
}

/// No two kinds of encoder share ffmpeg's name.
pub proof fn codec_names_are_distinct(a: BackendView, b: BackendView)
    requires
        codec_of(a) == codec_of(b),
    ensures
        a is Vaapi <==> b is Vaapi,
        a !is Vaapi ==> a == b,
{
    reveal_strlit("h264_vaapi");
    reveal_strlit("h264_nvenc");
    reveal_strlit("h264_qsv");
    reveal_strlit("h264_amf");
    reveal_strlit("libx264");
    assert("h264_vaapi"@[5] == 'v' && "h264_nvenc"@[5] == 'n');
    assert("h264_qsv"@[5] == 'q' && "h264_amf"@[5] == 'a' && "libx264"@[5] == '6');
    assert(codec_of(a)[5] == codec_of(b)[5]);
}

/// The systems that a host runs on; they have different encoders.
#[derive(Debug, Clone, Copy, PartialEq, Eq, Structural)]
pub enum Platform {
    Linux,
    Windows,
}

/// The encoder that a configured codec pins, if it pins one. Any other name leaves the choice open.
pub open spec fn pinned(codec: Seq<char>) -> Seq<BackendView> {
    let c = text::trimmed(codec);
    if c == codec_of(BackendView::Nvenc) {
        seq![BackendView::Nvenc]
    } else if c == codec_of(BackendView::Software) {
        seq![BackendView::Software]
    } else if c == codec_of(BackendView::Qsv) {
        seq![BackendView::Qsv]
    } else if c == codec_of(BackendView::Amf) {
        seq![BackendView::Amf]
    } else {
        Seq::empty()
    }
}

/// VA-API on each node there is.
pub open spec fn on_nodes(nodes: Seq<Seq<char>>) -> Seq<BackendView> {
    nodes.map_values(|n: Seq<char>| BackendView::Vaapi { render_node: n })
}

/// VA-API on the configured node, unless that is blank, and then on each node there is.
pub open spec fn vaapi_plan(configured: Seq<char>, nodes: Seq<Seq<char>>) -> Seq<BackendView> {
    (if text::trimmed(configured).len() > 0 {
        seq![BackendView::Vaapi { render_node: text::trimmed(configured) }]
    } else {
        Seq::empty()
    }) + on_nodes(nodes)
}

/// The order on each system where nothing is pinned.
pub open spec fn auto_plan(p: Platform, configured: Seq<char>, nodes: Seq<Seq<char>>) -> Seq<
    BackendView,
> {
    match p {
        Platform::Linux => vaapi_plan(configured, nodes).push(BackendView::Nvenc).push(
            BackendView::Software,
        ),
        Platform::Windows => seq![
            BackendView::Qsv,
            BackendView::Nvenc,
            BackendView::Amf,
            BackendView::Software,
        ],
    }
}

/// What is tried, in order.
pub open spec fn plan(
    p: Platform,
    codec: Seq<char>,
    configured: Seq<char>,
    nodes: Seq<Seq<char>>,
) -> Seq<BackendView> {
    pinned(codec) + auto_plan(p, configured, nodes)
}

/// The encoders of a list.
pub open spec fn backends(v: Seq<EncodeBackend>) -> Seq<BackendView> {
    v.map_values(|b: EncodeBackend| b@)
}

/// The first encoder of a list that works.
pub open spec fn chosen(list: Seq<BackendView>, works: spec_fn(BackendView) -> bool) -> Option<
    BackendView,
>
    decreases list.len(),
{
    if list.len() == 0 {
        None
    } else if works(list[0]) {
        Some(list[0])
    } else {
        chosen(list.skip(1), works)
    }
}

fn push_backend(v: &mut Vec<EncodeBackend>, b: EncodeBackend)
    ensures
        backends(final(v)@) == backends(old(v)@).push(b@),
{
    v.push(b);
    assert(backends(v@) =~= backends(old(v)@).push(b@));
}

/// The encoder that a configured codec pins, if it pins one.
fn pinned_backend(codec: &str) -> (v: Vec<EncodeBackend>)
    ensures
        backends(v@) == pinned(codec@),
{
    let configured = text::trim(codec);
    let mut v: Vec<EncodeBackend> = Vec::new();
    assert(backends(v@) =~= Seq::<BackendView>::empty());
    if text::same(configured.as_str(), EncodeBackend::Nvenc.codec_name()) {
        push_backend(&mut v, EncodeBackend::Nvenc);
    } else if text::same(configured.as_str(), EncodeBackend::Software.codec_name()) {
        push_backend(&mut v, EncodeBackend::Software);
    } else if text::same(configured.as_str(), EncodeBackend::Qsv.codec_name()) {
        push_backend(&mut v, EncodeBackend::Qsv);
    } else if text::same(configured.as_str(), EncodeBackend::Amf.codec_name()) {
        push_backend(&mut v, EncodeBackend::Amf);
    }
    assert(backends(v@) =~= pinned(codec@));
    v
}

fn push_vaapi(v: &mut Vec<EncodeBackend>, configured: &str, nodes: &Vec<String>)
    ensures
        backends(final(v)@) == backends(old(v)@) + vaapi_plan(configured@, text::views(nodes@)),
{
    let node = text::trim(configured);
    if !node.as_str().is_empty() {
        push_backend(v, EncodeBackend::Vaapi { render_node: node });
    }
    push_nodes(v, nodes);
    assert(backends(v@) =~= backends(old(v)@) + vaapi_plan(configured@, text::views(nodes@)));
}

fn push_nodes(v: &mut Vec<EncodeBackend>, nodes: &Vec<String>)
    ensures
        backends(final(v)@) == backends(old(v)@) + on_nodes(text::views(nodes@)),
{
    let ghost f = |n: Seq<char>| BackendView::Vaapi { render_node: n };
    let ghost all = text::views(nodes@);
    let ghost head = backends(v@);
    let mut i: usize = 0;
    assert(head + all.take(0).map_values(f) =~= head);
    while i < nodes.len()
        invariant
            i <= nodes.len(),
            all == text::views(nodes@),
            f == (|n: Seq<char>| BackendView::Vaapi { render_node: n }),
            backends(v@) == head + all.take(i as int).map_values(f),
        decreases nodes.len() - i,
    {
        push_backend(v, EncodeBackend::Vaapi { render_node: nodes[i].clone() });
        assert(backends(v@) =~= head + all.take(i + 1).map_values(f));
        i = i + 1;
    }
    assert(all.take(i as int) =~= all);
}

/// A search for an encoder that works. The view is what has not been tried yet.
pub struct BackendSearch {
    left: Vec<EncodeBackend>,
    codec: String,
}

impl View for BackendSearch {
    type V = Seq<BackendView>;

    closed spec fn view(&self) -> Seq<BackendView> {
        backends(self.left@)
    }
}

impl BackendSearch {
    /// The codec that is tried on a render node.
    pub closed spec fn codec(&self) -> Seq<char> {
        self.codec@
    }

    /// The arguments of ffmpeg that try what is next; `None` where nothing is left.
    pub fn probe(&self) -> (res: Option<Vec<String>>)
        ensures
            match res {
                Some(args) => self@.len() > 0 && text::views(args@) == probe_args_of(
                    self@[0],
                    self.codec(),
                ),
                None => self@.len() == 0,
            },
    {
        if self.left.len() > 0 {
            Some(probe_args(&self.left[0], self.codec.as_str()))
        } else {
            None
        }
    }

    /// What is to be tried next; `None` where nothing is left.
    pub fn next(&self) -> (res: Option<&EncodeBackend>)
        ensures
            match res {
                Some(b) => self@.len() > 0 && b@ == self@[0],
                None => self@.len() == 0,
            },
    {
        if self.left.len() > 0 {
            Some(&self.left[0])
        } else {
            None
        }
    }

    /// Takes the outcome of what was tried. An encoder that works ends the search, one that does not
    /// is left behind.
    pub fn tell(&mut self, works: bool) -> (res: Option<EncodeBackend>)
        requires
            old(self)@.len() > 0,
        ensures
            final(self)@ == old(self)@.skip(1),
            final(self).codec() == old(self).codec(),
            match res {
                Some(b) => works && b@ == old(self)@[0],
                None => !works,
            },
    {
        let b = self.left.remove(0);
        assert(backends(self.left@) =~= old(self)@.skip(1));
        if works {
            Some(b)
        } else {
            None
        }
    }
}

// ---- what is said of the search ----

/// What is said where the pinned encoder does not work; `codec` is the configured one, trimmed.
pub open spec fn pin_failed_text(codec: Seq<char>) -> Seq<char> {
    "[gpu] configured codec "@ + codec + (if codec == codec_of(BackendView::Software) {
        " does not work on this machine (is ffmpeg built with libx264?) -- falling back to auto-detection."@
    } else {
        " does not work on this machine -- falling back to auto-detection."@
    })
}

/// What is said of a render node that was not configured; `configured` is what was, trimmed.
pub open spec fn node_text(configured: Seq<char>, codec: Seq<char>, node: Seq<char>) -> Seq<char> {
    if configured.len() == 0 {
        "[gpu] auto-detected render node: "@ + node
    } else {
        "[gpu] configured render node "@ + configured + " cannot encode "@ + codec + " -- using "@
            + node + " instead. Set `vaapi_render_node = \""@ + node
            + "\"` in host.toml to silence this."@
    }
}

/// What is said of a search for a render node that ended with what stands at `k` of its plan: nothing
/// where that is the configured one, or where nothing worked.
pub open spec fn node_notes(
    configured: Seq<char>,
    nodes: Seq<Seq<char>>,
    codec: Seq<char>,
    k: int,
) -> Seq<Seq<char>> {
    let c = text::trimmed(configured);
    let first: int = if c.len() > 0 {
        1
    } else {
        0
    };
    if first <= k < first + nodes.len() {
        seq![node_text(c, codec, nodes[k - first])]
    } else {
        Seq::empty()
    }
}

pub const NVENC_NOTE: &'static str = "[gpu] no VA-API render node can encode -- using NVENC instead.";

pub const SOFTWARE_NOTE: &'static str =
    "[gpu] no hardware encoder (VA-API or NVENC) is available -- falling back to software encoding. This costs real CPU and may not sustain the target framerate at high resolutions; run `palmtopd --doctor` for the full picture.";

pub const WINDOWS_QSV_NOTE: &'static str = "[gpu] using Intel Quick Sync (QSV).";

pub const WINDOWS_NVENC_NOTE: &'static str =
    "[gpu] no Quick Sync device found -- using NVENC instead.";

pub const WINDOWS_AMF_NOTE: &'static str =
    "[gpu] no Quick Sync or NVENC device found -- using AMD AMF instead.";

pub const WINDOWS_SOFTWARE_NOTE: &'static str =
    "[gpu] no hardware encoder (QSV, NVENC, or AMF) is available -- falling back to software encoding. This costs real CPU and may not sustain the target framerate at high resolutions; run `palmtopd --doctor` for the full picture.";

/// What is said where the order of a system ended with what stands at `k` of it.
pub open spec fn auto_notes(
    p: Platform,
    configured: Seq<char>,
    nodes: Seq<Seq<char>>,
    k: int,
) -> Seq<Seq<char>> {
    match p {
        Platform::Linux => {
            let n = vaapi_plan(configured, nodes).len();
            if k == n {
                seq![NVENC_NOTE@]
            } else if k == n + 1 {
                seq![SOFTWARE_NOTE@]
            } else {
                node_notes(configured, nodes, "h264_vaapi"@, k)
            }
        },
        Platform::Windows => if k == 0 {
            seq![WINDOWS_QSV_NOTE@]
        } else if k == 1 {
            seq![WINDOWS_NVENC_NOTE@]
        } else if k == 2 {
            seq![WINDOWS_AMF_NOTE@]
        } else if k == 3 {
            seq![WINDOWS_SOFTWARE_NOTE@]
        } else {
            Seq::empty()
        },
    }
}

/// What is said of a search in which the first `failed` encoders of the plan were tried in vain, and
/// which ended with the next, or with none where that was all: that the pinned one does not work, and
/// what is taken in its place.
pub open spec fn search_notes(
    p: Platform,
    codec: Seq<char>,
    configured: Seq<char>,
    nodes: Seq<Seq<char>>,
    failed: int,
) -> Seq<Seq<char>> {
    if pinned(codec).len() == 0 {
        auto_notes(p, configured, nodes, failed)
    } else if failed == 0 {
        Seq::empty()
    } else {
        seq![pin_failed_text(text::trimmed(codec))] + auto_notes(p, configured, nodes, failed - 1)
    }
}

fn push_node_note(v: &mut Vec<String>, configured: &str, nodes: &Vec<String>, codec: &str, k: usize)
    ensures
        text::views(final(v)@) == text::views(old(v)@) + node_notes(
            configured@,
            text::views(nodes@),
            codec@,
            k as int,
        ),
{
    let c = text::trim(configured);
    let ghost all = text::views(nodes@);
    let first: usize = if c.as_str().is_empty() {
        0
    } else {
        1
    };
    if k >= first && k - first < nodes.len() {
        let node = &nodes[k - first];
        assert(node@ == all[k - first]);
        let mut note = String::new();
        if first == 0 {
            note.append("[gpu] auto-detected render node: ");
            note.append(node.as_str());
            assert(note@ =~= node_text(c@, codec@, node@));
        } else {
            note.append("[gpu] configured render node ");
            note.append(c.as_str());
            note.append(" cannot encode ");
            note.append(codec);
            note.append(" -- using ");
            note.append(node.as_str());
            note.append(" instead. Set `vaapi_render_node = \"");
            note.append(node.as_str());
            note.append("\"` in host.toml to silence this.");
            assert(note@ =~= node_text(c@, codec@, node@));
        }
        text::push_text(v, note.as_str());
    }
    assert(text::views(v@) =~= text::views(old(v)@) + node_notes(configured@, all, codec@, k as int));
}

fn push_auto_note(v: &mut Vec<String>, p: Platform, configured: &str, nodes: &Vec<String>, k: usize)
    ensures
        text::views(final(v)@) == text::views(old(v)@) + auto_notes(
            p,
            configured@,
            text::views(nodes@),
            k as int,
        ),
{
    let ghost all = text::views(nodes@);
    match p {
        Platform::Linux => {
            let c = text::trim(configured);
            let first: usize = if c.as_str().is_empty() {
                0
            } else {
                1
            };
            assert(vaapi_plan(configured@, all).len() == first + nodes.len());
            if k >= first && k - first == nodes.len() {
                text::push_text(v, NVENC_NOTE);
            } else if k > first && k - first - 1 == nodes.len() {
                text::push_text(v, SOFTWARE_NOTE);
            } else {
                push_node_note(v, configured, nodes, "h264_vaapi", k);
            }
        },
        Platform::Windows => {
            if k == 0 {
                text::push_text(v, WINDOWS_QSV_NOTE);
            } else if k == 1 {
                text::push_text(v, WINDOWS_NVENC_NOTE);
            } else if k == 2 {
                text::push_text(v, WINDOWS_AMF_NOTE);
            } else if k == 3 {
                text::push_text(v, WINDOWS_SOFTWARE_NOTE);
            }
        },
    }
    assert(text::views(v@) =~= text::views(old(v)@) + auto_notes(p, configured@, all, k as int));
}

/// What is said where no encoder works.
pub open spec fn no_encoder_text(p: Platform) -> Seq<char> {
    match p {
        Platform::Linux =>
            "no working video encoder found on this machine -- tried VA-API, NVENC, and software (libx264) encoding. Run `palmtopd --doctor` for the full diagnosis."@,
        Platform::Windows =>
            "no working video encoder found on this machine -- tried Quick Sync, NVENC, AMF, and software (libx264) encoding. Run `palmtopd --doctor` for the full diagnosis."@,
    }
}

pub fn no_encoder(p: Platform) -> (res: &'static str)
    ensures
        res@ == no_encoder_text(p),
{
    match p {
        Platform::Linux =>
            "no working video encoder found on this machine -- tried VA-API, NVENC, and software (libx264) encoding. Run `palmtopd --doctor` for the full diagnosis.",
        Platform::Windows =>
            "no working video encoder found on this machine -- tried Quick Sync, NVENC, AMF, and software (libx264) encoding. Run `palmtopd --doctor` for the full diagnosis.",
    }
}

/// What is said where no render node can encode.
pub open spec fn no_node_text(nodes: Seq<Seq<char>>, codec: Seq<char>) -> Seq<char> {
    if nodes.len() == 0 {
        "no DRM render nodes found under /dev/dri -- this machine has no GPU available for hardware encode. Run `palmtopd --doctor` for details."@
    } else {
        "none of the available render nodes ("@ + text::joined(nodes, ", "@)
            + ") can hardware-encode "@ + codec
            + ". Run `palmtopd --doctor` for the full diagnosis and how to fix it."@
    }
}

impl HostConfig {
    /// The search for the encoder to run: the one that is pinned, and then those of the system in
    /// their order.
    pub fn resolved_encode_backend(&self, p: Platform, nodes: &Vec<String>) -> (res: BackendSearch)
        ensures
            res@ == plan(p, self.encode.codec@, self.gpu.vaapi_render_node@, text::views(nodes@)),
            res.codec() == "h264_vaapi"@,
    {
        let mut left: Vec<EncodeBackend> = pinned_backend(self.encode.codec.as_str());
        match p {
            Platform::Linux => {
                push_vaapi(&mut left, self.gpu.vaapi_render_node.as_str(), nodes);
                push_backend(&mut left, EncodeBackend::Nvenc);
                push_backend(&mut left, EncodeBackend::Software);
            },
            Platform::Windows => {
                push_backend(&mut left, EncodeBackend::Qsv);
                push_backend(&mut left, EncodeBackend::Nvenc);
                push_backend(&mut left, EncodeBackend::Amf);
                push_backend(&mut left, EncodeBackend::Software);
            },
        }
        assert(backends(left@) =~= plan(
            p,
            self.encode.codec@,
            self.gpu.vaapi_render_node@,
            text::views(nodes@),
        ));
        BackendSearch { left, codec: "h264_vaapi".to_owned() }
    }

    /// The search for the render node to encode the configured codec on: the configured one, and
    /// then every other.
    pub fn resolved_render_node(&self, nodes: &Vec<String>) -> (res: BackendSearch)
        ensures
            res@ == vaapi_plan(self.gpu.vaapi_render_node@, text::views(nodes@)),
            res.codec() == self.encode.codec@,
    {
        let mut left: Vec<EncodeBackend> = Vec::new();
        push_vaapi(&mut left, self.gpu.vaapi_render_node.as_str(), nodes);
        assert(backends(left@) =~= vaapi_plan(
            self.gpu.vaapi_render_node@,
            text::views(nodes@),
        ));
        BackendSearch { left, codec: self.encode.codec.clone() }
    }

    /// What is said of the search for the encoder to run, where the first `failed` of its plan were
    /// tried in vain, and it ended with the next, or with none where that was all.
    pub fn fallback_notes(&self, p: Platform, nodes: &Vec<String>, failed: usize) -> (res: Vec<
        String,
    >)
        ensures
            text::views(res@) == search_notes(
                p,
                self.encode.codec@,
                self.gpu.vaapi_render_node@,
                text::views(nodes@),
                failed as int,
            ),
    {
        let pin = pinned_backend(self.encode.codec.as_str());
        assert(backends(pin@).len() == pin@.len());
        let node = self.gpu.vaapi_render_node.as_str();
        let mut notes: Vec<String> = Vec::new();
        assert(text::views(notes@) =~= Seq::<Seq<char>>::empty());
        if pin.len() == 0 {
            push_auto_note(&mut notes, p, node, nodes, failed);
        } else if failed > 0 {
            let codec = text::trim(self.encode.codec.as_str());
            let mut note = "[gpu] configured codec ".to_owned();
            note.append(codec.as_str());
            if text::same(codec.as_str(), EncodeBackend::Software.codec_name()) {
                note.append(
                    " does not work on this machine (is ffmpeg built with libx264?) -- falling back to auto-detection.",
                );
            } else {
                note.append(
                    " does not work on this machine -- falling back to auto-detection.",
                );
            }
            assert(note@ =~= pin_failed_text(codec@));
            text::push_text(&mut notes, note.as_str());
            push_auto_note(&mut notes, p, node, nodes, failed - 1);
        }
        assert(text::views(notes@) =~= search_notes(
            p,
            self.encode.codec@,
            self.gpu.vaapi_render_node@,
            text::views(nodes@),
            failed as int,
        ));
        notes
    }

    /// What is said of the search for the render node, where the first `failed` of its plan were
    /// tried in vain, and it ended with the next, or with none where that was all.
    pub fn render_node_notes(&self, nodes: &Vec<String>, failed: usize) -> (res: Vec<String>)
        ensures
            text::views(res@) == node_notes(
                self.gpu.vaapi_render_node@,
                text::views(nodes@),
                self.encode.codec@,
                failed as int,
            ),
    {
        let mut notes: Vec<String> = Vec::new();
        assert(text::views(notes@) =~= Seq::<Seq<char>>::empty());
        push_node_note(
            &mut notes,
            self.gpu.vaapi_render_node.as_str(),
            nodes,
            self.encode.codec.as_str(),
            failed,
        );
        assert(text::views(notes@) =~= node_notes(
            self.gpu.vaapi_render_node@,
            text::views(nodes@),
            self.encode.codec@,
            failed as int,
        ));
        notes
    }

    /// What is said where that search finds nothing.
    pub fn no_render_node(&self, nodes: &Vec<String>) -> (res: String)
        ensures
            res@ == no_node_text(text::views(nodes@), self.encode.codec@),
    {
        if nodes.len() == 0 {
            return "no DRM render nodes found under /dev/dri -- this machine has no GPU available for hardware encode. Run `palmtopd --doctor` for details.".to_owned();
        }
        let mut out = "none of the available render nodes (".to_owned();
        out.append(text::join(nodes, ", ").as_str());
        out.append(") can hardware-encode ");
        out.append(self.encode.codec.as_str());
        out.append(". Run `palmtopd --doctor` for the full diagnosis and how to fix it.");
        out
    }
}

// ---- laws ----

/// The search ends with the first encoder that works, and with none only where none does.
pub proof fn the_first_that_works_is_chosen(
    list: Seq<BackendView>,
    works: spec_fn(BackendView) -> bool,
)
    ensures
        match chosen(list, works) {
            Some(b) => exists|i: int|
                0 <= i < list.len() && #[trigger] list[i] == b && works(b) && forall|j: int|
                    0 <= j < i ==> !works(#[trigger] list[j]),
            None => forall|j: int| 0 <= j < list.len() ==> !works(#[trigger] list[j]),
        },
    decreases list.len(),
{
    if list.len() > 0 {
        if works(list[0]) {
        } else {
            the_first_that_works_is_chosen(list.skip(1), works);
            match chosen(list.skip(1), works) {
                Some(b) => {
                    let i = choose|i: int|
                        0 <= i < list.skip(1).len() && #[trigger] list.skip(1)[i] == b && works(b)
                            && forall|j: int| 0 <= j < i ==> !works(#[trigger] list.skip(1)[j]);
                    assert(list[i + 1] == b);
                    assert forall|j: int| 0 <= j < i + 1 implies !works(#[trigger] list[j]) by {
                        if j > 0 {
                            assert(list.skip(1)[j - 1] == list[j]);
                        }
                    }
                },
                None => {
                    assert forall|j: int| 0 <= j < list.len() implies !works(#[trigger] list[j]) by {
                        if j > 0 {
                            assert(list.skip(1)[j - 1] == list[j]);
                        }
                    }
                },
            }
        }
    }
}

/// A search never falls back in silence: where a pinned encoder does not work, that is said first,
/// and where something else than the configured render node is taken, what is taken is said last.
pub proof fn a_fallback_is_told(
    p: Platform,
    codec: Seq<char>,
    configured: Seq<char>,
    nodes: Seq<Seq<char>>,
    failed: int,
)
    requires
        0 <= failed <= plan(p, codec, configured, nodes).len(),
    ensures
        ({
            let list = plan(p, codec, configured, nodes);
            let notes = search_notes(p, codec, configured, nodes, failed);
            let node = BackendView::Vaapi { render_node: text::trimmed(configured) };
            let pins = pinned(codec).len();
            &&& pins > 0 && failed > 0 ==> notes.len() > 0 && notes[0] == pin_failed_text(
                text::trimmed(codec),
            )
            &&& pins > 0 && failed == 0 ==> notes.len() == 0
            &&& pins <= failed < list.len() && list[failed] != node ==> notes.len() > 0
                && notes.last() == auto_notes(p, configured, nodes, failed - pins).last()
                && auto_notes(p, configured, nodes, failed - pins).len() == 1
        }),
{
    let list = plan(p, codec, configured, nodes);
    let pins = pinned(codec).len();
    if pins <= failed < list.len() {
        assert(list[failed] == auto_plan(p, configured, nodes)[failed - pins]);
    }
}

/// An encoder that is pinned and works is taken; one that is pinned and does not work leaves the
/// choice that would have been made without it.
pub proof fn a_pin_holds_or_falls_back(
    p: Platform,
    codec: Seq<char>,
    configured: Seq<char>,
    nodes: Seq<Seq<char>>,
    works: spec_fn(BackendView) -> bool,
)
    ensures
        ({
            let list = plan(p, codec, configured, nodes);
            let auto = auto_plan(p, configured, nodes);
            if pinned(codec).len() > 0 && works(pinned(codec)[0]) {
                chosen(list, works) == Some(pinned(codec)[0])
            } else {
                chosen(list, works) == chosen(auto, works)
            }
        }),
{
    let list = plan(p, codec, configured, nodes);
    let auto = auto_plan(p, configured, nodes);
    if pinned(codec).len() == 0 {
        assert(list =~= auto);
    } else {
        assert(list.skip(1) =~= auto);
    }
}

/// A machine on which software encoding works always gets an encoder, and software encoding only
/// where it is pinned or nothing before it works.
pub proof fn software_is_the_last_resort(
    p: Platform,
    codec: Seq<char>,
    configured: Seq<char>,
    nodes: Seq<Seq<char>>,
    works: spec_fn(BackendView) -> bool,
)
    requires
        works(BackendView::Software),
    ensures
        ({
            let list = plan(p, codec, configured, nodes);
            let auto = auto_plan(p, configured, nodes);
            &&& chosen(list, works) is Some
            &&& auto.last() == BackendView::Software
            &&& pinned(codec).len() == 0 && chosen(list, works) == Some(BackendView::Software)
                ==> forall|j: int| 0 <= j < auto.len() - 1 ==> !works(#[trigger] auto[j])
        }),
{
    let list = plan(p, codec, configured, nodes);
    let auto = auto_plan(p, configured, nodes);
    the_first_that_works_is_chosen(list, works);
    assert(list[list.len() - 1] == BackendView::Software);
    if pinned(codec).len() == 0 && chosen(list, works) == Some(BackendView::Software) {
        assert(list =~= auto);
        let i = choose|i: int|
            0 <= i < list.len() && #[trigger] list[i] == BackendView::Software && forall|j: int|
                0 <= j < i ==> !works(#[trigger] list[j]);
        assert(i == auto.len() - 1) by {
            if p == Platform::Linux {
                let v = vaapi_plan(configured, nodes);
                if i < v.len() {
                    assert(auto[i] == v[i]);
                }
            }
        }
    }
}

// ---- what is there ----

/// The path of the render node with this name in `/dev/dri`, if it names one.
pub open spec fn node_of(name: Seq<char>) -> Option<Seq<char>> {
    if name.len() >= 7 && name.take(7) == "renderD"@ {
        Some("/dev/dri/"@ + name)
    } else {
        None
    }
}

/// The render nodes with these names, each as often as it is there.
pub open spec fn nodes_in(names: Seq<Seq<char>>) -> vstd::multiset::Multiset<Seq<char>>
    decreases names.len(),
{
    if names.len() == 0 {
        vstd::multiset::Multiset::empty()
    } else {
        match node_of(names.last()) {
            Some(n) => nodes_in(names.drop_last()).insert(n),
            None => nodes_in(names.drop_last()),
        }
    }
}

/// The render nodes among the names in `/dev/dri`, in order.
pub fn render_nodes(names: &Vec<String>) -> (res: Vec<String>)
    ensures
        text::sorted(text::views(res@)),
        text::views(res@).to_multiset() == nodes_in(text::views(names@)),
{
    let ghost all = text::views(names@);
    let mut out: Vec<String> = Vec::new();
    let mut i: usize = 0;
    proof {
        assert(text::views(out@) =~= Seq::<Seq<char>>::empty());
        text::views(out@).to_multiset_ensures();
        assert(text::views(out@).to_multiset() =~= vstd::multiset::Multiset::empty());
        assert(all.take(0) =~= Seq::<Seq<char>>::empty());
    }
    while i < names.len()
        invariant
            i <= names.len(),
            all == text::views(names@),
            text::sorted(text::views(out@)),
            text::views(out@).to_multiset() == nodes_in(all.take(i as int)),
        decreases names.len() - i,
    {
        proof {
            assert(all.take(i + 1).drop_last() =~= all.take(i as int));
            assert(all.take(i + 1).last() == names@[i as int]@);
        }
        if text::starts_with(names[i].as_str(), "renderD") {
            proof {
                reveal_strlit("renderD");
            }
            let node = "/dev/dri/".to_owned().concat(names[i].as_str());
            text::insert_sorted(&mut out, node);
        } else {
            proof {
                reveal_strlit("renderD");
            }
        }
        i = i + 1;
    }
    assert(all.take(i as int) =~= all);
    out
}

/// The generated picture that an encoder is tried on.
pub const TEST_SOURCE: &'static str = "testsrc=size=320x240:rate=30:duration=0.2";

/// The arguments of ffmpeg with which an encoder is tried: a few generated frames, and nothing is
/// kept. On a render node, `codec` is the codec that is tried.
pub open spec fn probe_args_of(b: BackendView, codec: Seq<char>) -> Seq<Seq<char>> {
    match b {
        BackendView::Vaapi { render_node } => seq![
            "-hide_banner"@,
            "-loglevel"@,
            "error"@,
            "-init_hw_device"@,
            "vaapi=va:"@ + render_node,
            "-f"@,
            "lavfi"@,
            "-i"@,
            TEST_SOURCE@,
            "-vf"@,
            "format=nv12,hwupload"@,
            "-c:v"@,
            codec,
            "-f"@,
            "null"@,
            "-"@,
        ],
        BackendView::Software => seq![
            "-hide_banner"@,
            "-loglevel"@,
            "error"@,
            "-f"@,
            "lavfi"@,
            "-i"@,
            TEST_SOURCE@,
            "-c:v"@,
            "libx264"@,
            "-preset"@,
            "ultrafast"@,
            "-f"@,
            "null"@,
            "-"@,
        ],
        _ => seq![
            "-hide_banner"@,
            "-loglevel"@,
            "error"@,
            "-f"@,
            "lavfi"@,
            "-i"@,
            TEST_SOURCE@,
            "-c:v"@,
            codec_of(b),
            "-f"@,
            "null"@,
            "-"@,
        ],
    }
}

/// The arguments of ffmpeg with which an encoder is tried.
pub fn probe_args(b: &EncodeBackend, codec: &str) -> (args: Vec<String>)
    ensures
        text::views(args@) == probe_args_of(b@, codec@),
{
    let mut v: Vec<String> = Vec::new();
    assert(text::views(v@) =~= Seq::<Seq<char>>::empty());
    text::push_text(&mut v, "-hide_banner");
    text::push_text(&mut v, "-loglevel");
    text::push_text(&mut v, "error");
    if let EncodeBackend::Vaapi { render_node } = b {
        let device = "vaapi=va:".to_owned().concat(render_node.as_str());
        text::push_text(&mut v, "-init_hw_device");
        text::push_text(&mut v, device.as_str());
    }
    text::push_text(&mut v, "-f");
    text::push_text(&mut v, "lavfi");
    text::push_text(&mut v, "-i");
    text::push_text(&mut v, TEST_SOURCE);
    match b {
        EncodeBackend::Vaapi { .. } => {
            text::push_text(&mut v, "-vf");
            text::push_text(&mut v, "format=nv12,hwupload");
            text::push_text(&mut v, "-c:v");
            text::push_text(&mut v, codec);
        },
        EncodeBackend::Software => {
            text::push_text(&mut v, "-c:v");
            text::push_text(&mut v, "libx264");
            text::push_text(&mut v, "-preset");
            text::push_text(&mut v, "ultrafast");
        },
        _ => {
            text::push_text(&mut v, "-c:v");
            text::push_text(&mut v, b.codec_name());
        },
    }
    text::push_text(&mut v, "-f");
    text::push_text(&mut v, "null");
    text::push_text(&mut v, "-");
    v
}

// ---- the list of encoders ----

/// Every encoder that there is to be listed, in order: VA-API on each node, and then the others.
pub fn candidates(nodes: &Vec<String>) -> (res: Vec<EncodeBackend>)
    ensures
        backends(res@) == on_nodes(text::views(nodes@)) + seq![
            BackendView::Nvenc,
            BackendView::Qsv,
            BackendView::Amf,
            BackendView::Software,
        ],
{
    let mut v: Vec<EncodeBackend> = Vec::new();
    push_nodes(&mut v, nodes);
    push_backend(&mut v, EncodeBackend::Nvenc);
    push_backend(&mut v, EncodeBackend::Qsv);
    push_backend(&mut v, EncodeBackend::Amf);
    push_backend(&mut v, EncodeBackend::Software);
    assert(backends(v@) =~= on_nodes(text::views(nodes@)) + seq![
        BackendView::Nvenc,
        BackendView::Qsv,
        BackendView::Amf,
        BackendView::Software,
    ]);
    v
}

/// The name that leaves the choice of the encoder to the daemon.
pub const AUTO_CODEC: &'static str = "auto";

/// An encoder that was tried, for the list.
pub struct BackendProbe {
    pub codec: String,
    pub label: String,
    pub works: bool,
}

/// What stands behind the line of the configured encoder.
pub open spec fn mark_if(configured: bool) -> Seq<char> {
    if configured {
        "  <- configured"@
    } else {
        Seq::empty()
    }
}

/// The line of an encoder.
pub open spec fn probe_line(p: BackendProbe, configured: Seq<char>) -> Seq<char> {
    "["@ + (if p.works {
        "  ok  "@
    } else {
        " no   "@
    }) + "] "@ + text::padded(p.codec@, 12) + " "@ + p.label@ + mark_if(p.codec@ == configured)
        + "\n"@
}

/// The lines of all encoders.
pub open spec fn probe_lines(v: Seq<BackendProbe>, configured: Seq<char>) -> Seq<char>
    decreases v.len(),
{
    if v.len() == 0 {
        Seq::empty()
    } else {
        probe_lines(v.drop_last(), configured) + probe_line(v.last(), configured)
    }
}

/// How each encoder that works is pinned.
pub open spec fn pin_lines(v: Seq<BackendProbe>) -> Seq<char>
    decreases v.len(),
{
    if v.len() == 0 {
        Seq::empty()
    } else {
        pin_lines(v.drop_last()) + (if v.last().works {
            "  palmtopd --set-encoder "@ + v.last().codec@ + "\n"@
        } else {
            Seq::empty()
        })
    }
}

/// Whether some encoder works.
pub open spec fn some_works(v: Seq<BackendProbe>) -> bool {
    exists|i: int| 0 <= i < v.len() && (#[trigger] v[i]).works
}

/// The list of encoders as it is printed.
pub open spec fn encoder_list(
    codec: Seq<char>,
    v: Seq<BackendProbe>,
    current: Result<BackendView, Seq<char>>,
) -> Seq<char> {
    let configured = text::trimmed(codec);
    probe_lines(v, configured) + "[  --  ] "@ + text::padded(AUTO_CODEC@, 12)
        + " pick the first one that works, automatically"@ + mark_if(
        configured == AUTO_CODEC@ || configured.len() == 0,
    ) + "\n\n"@ + (match current {
        Ok(b) => "Right now the daemon would stream via: "@ + label_of(b),
        Err(e) => "Right now the daemon could not encode at all: "@ + e,
    }) + "\n"@ + (if some_works(v) {
        "\nTo pin one (any of these, or `auto`):\n"@ + pin_lines(v)
            + "\nWorth trying more than one if the stream feels sluggish: whichever the probe\nhappens to find first is not necessarily the one that feels best on your hardware.\n"@
    } else {
        "\nNothing works here -- run `palmtopd --doctor` for the specific cause.\n"@
    })
}

/// The list of encoders that were tried, which of them is configured, and which the daemon would
/// use.
pub fn list_encoders(
    codec: &str,
    probes: &Vec<BackendProbe>,
    current: &Result<EncodeBackend, String>,
) -> (res: String)
    ensures
        res@ == encoder_list(
            codec@,
            probes@,
            match *current {
                Ok(b) => Ok(b@),
                Err(e) => Err(e@),
            },
        ),
{
    let configured = text::trim(codec);
    let mut out = String::new();
    let mut pins = String::new();
    let mut any = false;
    let mut i: usize = 0;
    assert(out@ =~= probe_lines(probes@.take(0), configured@));
    assert(pins@ =~= pin_lines(probes@.take(0)));
    while i < probes.len()
        invariant
            i <= probes.len(),
            out@ == probe_lines(probes@.take(i as int), configured@),
            pins@ == pin_lines(probes@.take(i as int)),
            any == (exists|k: int| 0 <= k < i && (#[trigger] probes@[k]).works),
        decreases probes.len() - i,
    {
        let ghost lines_before = out@;
        let ghost pins_before = pins@;
        let ghost v = probes@.take(i + 1);
        assert(v.drop_last() =~= probes@.take(i as int));
        let p = &probes[i];
        assert(v.last() == *p);
        out.append("[");
        out.append(
            if p.works {
                "  ok  "
            } else {
                " no   "
            },
        );
        out.append("] ");
        text::push_padded(&mut out, p.codec.as_str(), 12);
        out.append(" ");
        out.append(p.label.as_str());
        if text::same(p.codec.as_str(), configured.as_str()) {
            out.append("  <- configured");
        }
        out.append("\n");
        assert(out@ =~= lines_before + probe_line(*p, configured@));
        if p.works {
            pins.append("  palmtopd --set-encoder ");
            pins.append(p.codec.as_str());
            pins.append("\n");
            any = true;
            assert(probes@[i as int].works);
        }
        assert(pins@ =~= pin_lines(v));
        i = i + 1;
    }
    assert(probes@.take(i as int) =~= probes@);
    out.append("[  --  ] ");
    text::push_padded(&mut out, AUTO_CODEC, 12);
    out.append(" pick the first one that works, automatically");
    if text::same(configured.as_str(), AUTO_CODEC) || configured.as_str().is_empty() {
        out.append("  <- configured");
    }
    out.append("\n\n");
    match current {
        Ok(b) => {
            out.append("Right now the daemon would stream via: ");
            out.append(b.to_string().as_str());
        },
        Err(e) => {
            out.append("Right now the daemon could not encode at all: ");
            out.append(e.as_str());
        },
    }
    out.append("\n");
    if any {
        out.append("\nTo pin one (any of these, or `auto`):\n");
        out.append(pins.as_str());
        out.append(
            "\nWorth trying more than one if the stream feels sluggish: whichever the probe\nhappens to find first is not necessarily the one that feels best on your hardware.\n",
        );
    } else {
        out.append("\nNothing works here -- run `palmtopd --doctor` for the specific cause.\n");
    }
    assert(out@ =~= encoder_list(
        codec@,
        probes@,
        match *current {
            Ok(b) => Ok(b@),
            Err(e) => Err(e@),
        },
    ));
    out
}

// ---- laws of the list, the plan and the notes ----

/// The names of the encoders, as ffmpeg and as people know them.
pub proof fn encoders_have_their_names(node: Seq<char>)
    ensures
        codec_of(BackendView::Vaapi { render_node: node }) == "h264_vaapi"@,
        codec_of(BackendView::Nvenc) == "h264_nvenc"@,
        codec_of(BackendView::Qsv) == "h264_qsv"@,
        codec_of(BackendView::Amf) == "h264_amf"@,
        codec_of(BackendView::Software) == "libx264"@,
        label_of(BackendView::Vaapi { render_node: node }) == "VA-API on "@ + node,
        label_of(BackendView::Nvenc) == "NVENC"@,
        label_of(BackendView::Qsv) == "Intel Quick Sync (QSV)"@,
        label_of(BackendView::Amf) == "AMD AMF"@,
        label_of(BackendView::Software) == "software (libx264)"@,
{
}

/// A configured codec, but for white space around it, that is ffmpeg's name for an encoder without a
/// render node is tried before all else; any other name changes nothing of what is tried.
pub proof fn a_codec_pins_its_encoder(
    p: Platform,
    codec: Seq<char>,
    configured: Seq<char>,
    nodes: Seq<Seq<char>>,
)
    ensures
        ({
            let c = text::trimmed(codec);
            let list = plan(p, codec, configured, nodes);
            let auto = auto_plan(p, configured, nodes);
            &&& c == "h264_nvenc"@ ==> list == seq![BackendView::Nvenc] + auto
            &&& c == "libx264"@ ==> list == seq![BackendView::Software] + auto
            &&& c == "h264_qsv"@ ==> list == seq![BackendView::Qsv] + auto
            &&& c == "h264_amf"@ ==> list == seq![BackendView::Amf] + auto
            &&& c != "h264_nvenc"@ && c != "libx264"@ && c != "h264_qsv"@ && c != "h264_amf"@ ==> list
                == auto
        }),
{
    reveal_strlit("h264_nvenc");
    reveal_strlit("h264_qsv");
    reveal_strlit("h264_amf");
    reveal_strlit("libx264");
    assert("h264_nvenc"@[5] == 'n' && "h264_qsv"@[5] == 'q' && "h264_amf"@[5] == 'a');
    assert("libx264"@[0] == 'l' && "h264_nvenc"@[0] == 'h' && "h264_qsv"@[0] == 'h' && "h264_amf"@[0]
        == 'h');
    assert(Seq::<BackendView>::empty() + auto_plan(p, configured, nodes) =~= auto_plan(
        p,
        configured,
        nodes,
    ));
}

/// On Linux the configured render node is tried first, unless it is blank, and then each that is there,
/// in its place; behind them NVENC, and then software. On Windows Quick Sync comes first, then NVENC,
/// then AMF, then software.
pub proof fn each_system_has_its_order(configured: Seq<char>, nodes: Seq<Seq<char>>, i: int)
    ensures
        ({
            let list = auto_plan(Platform::Linux, configured, nodes);
            let c = text::trimmed(configured);
            let first: int = if c.len() > 0 {
                1
            } else {
                0
            };
            &&& list.len() == first + nodes.len() + 2
            &&& c.len() > 0 ==> list[0] == (BackendView::Vaapi { render_node: c })
            &&& 0 <= i < nodes.len() ==> list[first + i] == (BackendView::Vaapi {
                render_node: nodes[i],
            })
            &&& list[first + nodes.len()] == BackendView::Nvenc
            &&& list[first + nodes.len() + 1] == BackendView::Software
        }),
        auto_plan(Platform::Windows, configured, nodes) == seq![
            BackendView::Qsv,
            BackendView::Nvenc,
            BackendView::Amf,
            BackendView::Software,
        ],
        on_nodes(nodes).len() == nodes.len(),
        0 <= i < nodes.len() ==> on_nodes(nodes)[i] == (BackendView::Vaapi { render_node: nodes[i] }),
        ({
            let list = vaapi_plan(configured, nodes);
            let c = text::trimmed(configured);
            &&& c.len() == 0 ==> list == on_nodes(nodes)
            &&& c.len() > 0 ==> list == seq![BackendView::Vaapi { render_node: c }] + on_nodes(nodes)
        }),
{
    assert(Seq::<BackendView>::empty() + on_nodes(nodes) =~= on_nodes(nodes));
}

/// An encoder is tried with a generated picture of which nothing is kept: on a render node with the
/// codec in question, after the upload to it, and else with its own.
pub proof fn an_encoder_is_tried_on_a_generated_picture(b: BackendView, codec: Seq<char>)
    ensures
        ({
            let a = probe_args_of(b, codec);
            let n = a.len() as int;
            &&& n >= 12
            &&& a.take(3) == seq!["-hide_banner"@, "-loglevel"@, "error"@]
            &&& a.subrange(n - 3, n) == seq!["-f"@, "null"@, "-"@]
            &&& (b matches BackendView::Vaapi { render_node } ==> a.subrange(3, n - 3) == seq![
                "-init_hw_device"@,
                "vaapi=va:"@ + render_node,
                "-f"@,
                "lavfi"@,
                "-i"@,
                "testsrc=size=320x240:rate=30:duration=0.2"@,
                "-vf"@,
                "format=nv12,hwupload"@,
                "-c:v"@,
                codec,
            ])
            &&& b !is Vaapi ==> a.subrange(3, 7) == seq![
                "-f"@,
                "lavfi"@,
                "-i"@,
                "testsrc=size=320x240:rate=30:duration=0.2"@,
            ]
            &&& b is Nvenc ==> a.subrange(7, n - 3) == seq!["-c:v"@, "h264_nvenc"@]
            &&& b is Qsv ==> a.subrange(7, n - 3) == seq!["-c:v"@, "h264_qsv"@]
            &&& b is Amf ==> a.subrange(7, n - 3) == seq!["-c:v"@, "h264_amf"@]
            &&& b is Software ==> a.subrange(7, n - 3) == seq![
                "-c:v"@,
                "libx264"@,
                "-preset"@,
                "ultrafast"@,
            ]
        }),
{
}

/// A render node is what has a name that begins with `renderD`, in `/dev/dri`; each name counts for
/// itself, in whatever order they come.
pub proof fn render_nodes_are_known_by_their_names(
    number: Seq<char>,
    name: Seq<char>,
    names: Seq<Seq<char>>,
)
    ensures
        node_of("renderD"@ + number) == Some("/dev/dri/"@ + ("renderD"@ + number)),
        node_of(name) is Some ==> name.len() >= 7 && name.take(7) == "renderD"@,
        nodes_in(Seq::empty()) == vstd::multiset::Multiset::<Seq<char>>::empty(),
        node_of(name) matches Some(n) ==> nodes_in(names.push(name)) == nodes_in(names).insert(n),
        node_of(name) is None ==> nodes_in(names.push(name)) == nodes_in(names),
{
    reveal_strlit("renderD");
    assert(("renderD"@ + number).take(7) =~= "renderD"@);
    assert(names.push(name).drop_last() =~= names);
}

/// What is said of a render node that was taken: nothing of the configured one; of another, that it was
/// found, or that it stands in for the configured one and how to keep it.
pub proof fn a_node_that_stands_in_is_told(
    configured: Seq<char>,
    nodes: Seq<Seq<char>>,
    codec: Seq<char>,
    i: int,
)
    ensures
        ({
            let c = text::trimmed(configured);
            &&& c.len() > 0 ==> node_notes(configured, nodes, codec, 0).len() == 0
            &&& c.len() == 0 && 0 <= i < nodes.len() ==> node_notes(configured, nodes, codec, i)
                == seq!["[gpu] auto-detected render node: "@ + nodes[i]]
            &&& c.len() > 0 && 0 <= i < nodes.len() ==> node_notes(configured, nodes, codec, i + 1)
                == seq![
                "[gpu] configured render node "@ + c + " cannot encode "@ + codec + " -- using "@
                    + nodes[i] + " instead. Set `vaapi_render_node = \""@ + nodes[i]
                    + "\"` in host.toml to silence this."@,
            ]
            &&& i >= nodes.len() ==> node_notes(
                configured,
                nodes,
                codec,
                if c.len() > 0 {
                    i + 1
                } else {
                    i
                },
            ).len() == 0
        }),
{
}

/// What is said of an encoder that was taken where none is pinned: of a render node as above; of any
/// other, which one, and what was not to be had.
pub proof fn an_encoder_that_stands_in_is_told(configured: Seq<char>, nodes: Seq<Seq<char>>, i: int)
    ensures
        ({
            let n = nodes.len() + (if text::trimmed(configured).len() > 0 {
                1int
            } else {
                0
            });
            &&& 0 <= i < n ==> auto_notes(Platform::Linux, configured, nodes, i) == node_notes(
                configured,
                nodes,
                "h264_vaapi"@,
                i,
            )
            &&& auto_notes(Platform::Linux, configured, nodes, n) == seq![
                "[gpu] no VA-API render node can encode -- using NVENC instead."@,
            ]
            &&& auto_notes(Platform::Linux, configured, nodes, n + 1) == seq![
                "[gpu] no hardware encoder (VA-API or NVENC) is available -- falling back to software encoding. This costs real CPU and may not sustain the target framerate at high resolutions; run `palmtopd --doctor` for the full picture."@,
            ]
            &&& auto_notes(Platform::Linux, configured, nodes, n + 2).len() == 0
        }),
        auto_notes(Platform::Windows, configured, nodes, 0) == seq![
            "[gpu] using Intel Quick Sync (QSV)."@,
        ],
        auto_notes(Platform::Windows, configured, nodes, 1) == seq![
            "[gpu] no Quick Sync device found -- using NVENC instead."@,
        ],
        auto_notes(Platform::Windows, configured, nodes, 2) == seq![
            "[gpu] no Quick Sync or NVENC device found -- using AMD AMF instead."@,
        ],
        auto_notes(Platform::Windows, configured, nodes, 3) == seq![
            "[gpu] no hardware encoder (QSV, NVENC, or AMF) is available -- falling back to software encoding. This costs real CPU and may not sustain the target framerate at high resolutions; run `palmtopd --doctor` for the full picture."@,
        ],
        auto_notes(Platform::Windows, configured, nodes, 4).len() == 0,
{
}

/// What is said where an encoder is pinned: nothing where it works; and where it does not, that, and
/// then what would have been said without it.
pub proof fn a_pin_that_fails_is_told_first(
    p: Platform,
    codec: Seq<char>,
    configured: Seq<char>,
    nodes: Seq<Seq<char>>,
    failed: int,
)
    requires
        0 <= failed,
    ensures
        ({
            let c = text::trimmed(codec);
            let notes = search_notes(p, codec, configured, nodes, failed);
            let pins = c == "h264_nvenc"@ || c == "libx264"@ || c == "h264_qsv"@ || c == "h264_amf"@;
            &&& !pins ==> notes == auto_notes(p, configured, nodes, failed)
            &&& pins && failed == 0 ==> notes.len() == 0
            &&& pins && failed > 0 && c != "libx264"@ ==> notes == seq![
                "[gpu] configured codec "@ + c
                    + " does not work on this machine -- falling back to auto-detection."@,
            ] + auto_notes(p, configured, nodes, failed - 1)
            &&& failed > 0 && c == "libx264"@ ==> notes == seq![
                "[gpu] configured codec "@ + c
                    + " does not work on this machine (is ffmpeg built with libx264?) -- falling back to auto-detection."@,
            ] + auto_notes(p, configured, nodes, failed - 1)
        }),
{
}

/// What is said where nothing works.
pub proof fn what_was_tried_is_told(nodes: Seq<Seq<char>>, codec: Seq<char>)
    ensures
        no_encoder_text(Platform::Linux)
            == "no working video encoder found on this machine -- tried VA-API, NVENC, and software (libx264) encoding. Run `palmtopd --doctor` for the full diagnosis."@,
        no_encoder_text(Platform::Windows)
            == "no working video encoder found on this machine -- tried Quick Sync, NVENC, AMF, and software (libx264) encoding. Run `palmtopd --doctor` for the full diagnosis."@,
        nodes.len() == 0 ==> no_node_text(nodes, codec)
            == "no DRM render nodes found under /dev/dri -- this machine has no GPU available for hardware encode. Run `palmtopd --doctor` for details."@,
        nodes.len() > 0 ==> no_node_text(nodes, codec) == "none of the available render nodes ("@
            + text::joined(nodes, ", "@) + ") can hardware-encode "@ + codec
            + ". Run `palmtopd --doctor` for the full diagnosis and how to fix it."@,
{
}

/// Each encoder is listed on a line of its own, in the order in which it was tried, with whether it
/// works, ffmpeg's name in twelve columns, the name that people have for it, and a mark where it is the
/// configured one. Those that work, and only those, are named again with how to pin them.
pub proof fn each_encoder_has_its_line(
    v: Seq<BackendProbe>,
    p: BackendProbe,
    configured: Seq<char>,
)
    ensures
        probe_lines(Seq::empty(), configured).len() == 0,
        probe_lines(v.push(p), configured) == probe_lines(v, configured) + probe_line(p, configured),
        probe_line(p, configured) == "["@ + (if p.works {
            "  ok  "@
        } else {
            " no   "@
        }) + "] "@ + text::padded(p.codec@, 12) + " "@ + p.label@ + (if p.codec@ == configured {
            "  <- configured"@
        } else {
            Seq::empty()
        }) + "\n"@,
        pin_lines(Seq::empty()).len() == 0,
        p.works ==> pin_lines(v.push(p)) == pin_lines(v) + ("  palmtopd --set-encoder "@ + p.codec@
            + "\n"@),
        !p.works ==> pin_lines(v.push(p)) == pin_lines(v),
        some_works(v.push(p)) <==> some_works(v) || p.works,
        !some_works(Seq::empty()),
{
    assert(v.push(p).drop_last() =~= v);
    assert(pin_lines(v) + Seq::<char>::empty() =~= pin_lines(v));
    if some_works(v) {
        let i = choose|i: int| 0 <= i < v.len() && (#[trigger] v[i]).works;
        assert(v.push(p)[i].works);
    }
    if p.works {
        assert(v.push(p)[v.len() as int].works);
    }
    if some_works(v.push(p)) && !p.works {
        let i = choose|i: int| 0 <= i < v.push(p).len() && (#[trigger] v.push(p)[i]).works;
        assert(v[i].works);
    }
}

/// Behind the lines of the encoders stands that of the automatic choice, marked where `auto` or nothing
/// is configured, and then which encoder would be used now, or why none could be; and then how to pin
/// one, or that nothing works.
pub proof fn the_list_ends_with_what_would_be_used(
    codec: Seq<char>,
    v: Seq<BackendProbe>,
    b: BackendView,
    error: Seq<char>,
)
    ensures
        ({
            let c = text::trimmed(codec);
            let head = probe_lines(v, c) + "[  --  ] "@ + text::padded("auto"@, 12)
                + " pick the first one that works, automatically"@ + (if c == "auto"@ || c.len() == 0 {
                "  <- configured"@
            } else {
                Seq::empty()
            }) + "\n\n"@;
            let tail = if some_works(v) {
                "\nTo pin one (any of these, or `auto`):\n"@ + pin_lines(v)
                    + "\nWorth trying more than one if the stream feels sluggish: whichever the probe\nhappens to find first is not necessarily the one that feels best on your hardware.\n"@
            } else {
                "\nNothing works here -- run `palmtopd --doctor` for the specific cause.\n"@
            };
            &&& encoder_list(codec, v, Ok(b)) == head + ("Right now the daemon would stream via: "@
                + label_of(b)) + "\n"@ + tail
            &&& encoder_list(codec, v, Err(error)) == head + (
            "Right now the daemon could not encode at all: "@ + error) + "\n"@ + tail
        }),
{
}

/// An encoder is seen as it is.
pub proof fn encoders_are_seen_as_they_are(render_node: String)
    ensures
        (EncodeBackend::Vaapi { render_node })@ == (BackendView::Vaapi {
            render_node: render_node@,
        }),
        EncodeBackend::Nvenc@ is Nvenc,
        EncodeBackend::Qsv@ is Qsv,
        EncodeBackend::Amf@ is Amf,
        EncodeBackend::Software@ is Software,
{
}

/// A search tries what is next with its arguments, and goes on until something works: what works is
/// taken, and what does not is left behind.
pub proof fn a_search_takes_what_works(
    search: &mut BackendSearch,
    before: BackendSearch,
    next: Option<&EncodeBackend>,
    probe: Option<Vec<String>>,
    works: bool,
    res: Option<EncodeBackend>,
)
    requires
        before == *old(search),
        call_ensures(BackendSearch::next, (&before,), next),
        call_ensures(BackendSearch::probe, (&before,), probe),
        before@.len() > 0,
        call_ensures(BackendSearch::tell, (search, works), res),
    ensures
        next matches Some(b) && b@ == before@[0],
        probe matches Some(args) && text::views(args@) == probe_args_of(before@[0], before.codec()),
        works ==> (res matches Some(b) && b@ == before@[0]),
        !works ==> res is None,
        final(search)@ == before@.skip(1),
        final(search).codec() == before.codec(),
{
}

/// The search for an encoder tries the plan of the system, on render nodes with `h264_vaapi`; the
/// search for a render node tries the nodes, with the configured codec.
pub proof fn searches_go_by_their_plans(
    cfg: &HostConfig,
    p: Platform,
    nodes: &Vec<String>,
    encoder: BackendSearch,
    node: BackendSearch,
)
    requires
        call_ensures(HostConfig::resolved_encode_backend, (cfg, p, nodes), encoder),
        call_ensures(HostConfig::resolved_render_node, (cfg, nodes), node),
    ensures
        encoder@ == plan(p, cfg.encode.codec@, cfg.gpu.vaapi_render_node@, text::views(nodes@)),
        encoder.codec() == "h264_vaapi"@,
        node@ == vaapi_plan(cfg.gpu.vaapi_render_node@, text::views(nodes@)),
        node.codec() == cfg.encode.codec@,
{
}

/// The list has VA-API on each node, in order, and then NVENC, Quick Sync, AMF and software.
pub proof fn the_list_has_every_encoder(nodes: &Vec<String>, res: Vec<EncodeBackend>, i: int)
    requires
        call_ensures(candidates, (nodes,), res),
    ensures
        res@.len() == nodes@.len() + 4,
        0 <= i < nodes@.len() ==> res@[i]@ == (BackendView::Vaapi { render_node: nodes@[i]@ }),
        res@[nodes@.len() as int]@ is Nvenc,
        res@[nodes@.len() as int + 1]@ is Qsv,
        res@[nodes@.len() as int + 2]@ is Amf,
        res@[nodes@.len() as int + 3]@ is Software,
{
    let n = nodes@.len() as int;
    let v = backends(res@);
    assert(v.len() == res@.len());
    assert(v[n] == res@[n]@ && v[n + 1] == res@[n + 1]@ && v[n + 2] == res@[n + 2]@ && v[n + 3]
        == res@[n + 3]@);
    if 0 <= i < n {
        assert(v[i] == res@[i]@);
        assert(on_nodes(text::views(nodes@))[i] == (BackendView::Vaapi { render_node: nodes@[i]@ }));
    }
}

} // verus!
