//! The checks of `--doctor`: what is said of each fact about a machine.
//!
//! The facts are found out by the program around this, by trying things and not by looking whether
//! they are there; here is which line of the report each of them gives.
use vstd::prelude::*;

use crate::backend::{no_encoder, EncodeBackend, Platform};
use crate::config::HostConfig;
use crate::diagnostics::{CheckView, Report};
use crate::{backend, config, diagnostics, text};

verus! {

pub const WAYLAND_FIX: &'static str =
    "Palmtop captures through the Wayland desktop portal and injects input through\n\
    Wayland's virtual-input protocols. An X11 session supports neither, so capture\n\
    cannot work here at all. Log into a Wayland session and try again.\n\
    If you ARE on Wayland, this usually means the daemon is running somewhere that\n\
    did not inherit your session's environment -- see the systemd note below.";

pub const PORTAL_FIX: &'static str =
    "The screen-share dialog comes from xdg-desktop-portal, and it needs a *backend*\n\
    matching your desktop. Install the one for your compositor:\n\
    GNOME             xdg-desktop-portal-gnome\n\
    KDE Plasma        xdg-desktop-portal-kde\n\
    Hyprland          xdg-desktop-portal-hyprland\n\
    Sway/wlroots      xdg-desktop-portal-wlr\n\
    Then log out and back in (the portal starts with your session).";

pub const PIPEWIRE_FIX: &'static str =
    "Captured frames are delivered over PipeWire, so it must be running:\n\
    systemctl --user status pipewire\n\
    systemctl --user enable --now pipewire pipewire-pulse";

pub const LINUX_FFMPEG_FIX: &'static str =
    "Hardware encoding runs through ffmpeg:\n\
    Arch      sudo pacman -S ffmpeg\n\
    Fedora    sudo dnf install ffmpeg\n\
    Debian    sudo apt install ffmpeg";

pub const NO_NODES_FIX: &'static str =
    "No DRM render node means no VA-API hardware encode. If this is a VM or a\n\
    headless machine, that is expected -- NVENC or software encoding (checked\n\
    separately below) may still work. On real hardware with a GPU, check that\n\
    your GPU driver is loaded and that you are in the `video`/`render` group:\n\
    sudo usermod -aG video,render $USER    (then log out and back in)";

pub const NO_VAAPI_FIX: &'static str =
    "Every render node was tried and none could hardware-encode. This machine may\n\
    still work via NVENC or software encoding (checked separately below). To fix\n\
    VA-API specifically, install your driver's VA-API package and verify with\n\
    `vainfo`:\n\
    Intel     intel-media-driver (or libva-intel-driver on older chips)\n\
    AMD       libva-mesa-driver / mesa-va-drivers\n\
    NVIDIA    nvidia-vaapi-driver (inconsistently packaged -- NVENC below is\n\
    usually the more reliable path on NVIDIA)";

pub const LINUX_NVENC_FIX: &'static str =
    "Expected on any non-NVIDIA machine. On an NVIDIA GPU, this usually means the\n\
    proprietary driver is not installed, or ffmpeg was built without NVENC support\n\
    -- check with:  ffmpeg -hide_banner -encoders | grep nvenc";

pub const LINUX_SOFTWARE_FIX: &'static str =
    "If VA-API and NVENC also failed above, this machine cannot encode video at all\n\
    with the current ffmpeg. Install a build with libx264, e.g. on Debian/Ubuntu\n\
    the distro ffmpeg package normally includes it already; on a from-source build,\n\
    configure with --enable-libx264 --enable-gpl.";

pub const LINUX_PAIRING_FIX: &'static str =
    "These are generated the first time the daemon starts. If they are still missing,\n\
    the daemon has never started successfully -- check:\n\
    journalctl --user -u palmtopd -n 50";

pub const ADDRESS_FIX: &'static str =
    "The daemon could not work out which address to advertise. Set it explicitly\n\
    in host.toml:\n  [host]\n  ip = \"192.168.1.42\"";

pub const OLD_BUILD_FIX: &'static str =
    "Windows.Graphics.Capture, which screen capture depends on, was not public API\n\
    before Windows 10 version 1903. Update Windows to use Palmtop.";

pub const UNKNOWN_BUILD_FIX: &'static str =
    "This is a bug in the check itself, not necessarily your system -- capture may\n\
    still work. Run the daemon in the foreground and try connecting a phone to find\n\
    out for certain.";

pub const WINDOWS_FFMPEG_FIX: &'static str =
    "The release package bundles ffmpeg.exe alongside palmtopd.exe -- if you built\n\
    from source instead, download a Windows ffmpeg build (e.g. gyan.dev's builds)\n\
    and place ffmpeg.exe next to palmtopd.exe, or add it to PATH.";

pub const QSV_FIX: &'static str =
    "Expected on any non-Intel-GPU machine, or an Intel GPU with an outdated driver.\n\
    Update the Intel graphics driver if this machine has an Intel iGPU and you\n\
    expected QSV to work.";

pub const WINDOWS_NVENC_FIX: &'static str =
    "Expected on any non-NVIDIA machine. On an NVIDIA GPU, this usually means the\n\
    driver needs updating, or ffmpeg was built without NVENC support -- check with:\n\
    ffmpeg -hide_banner -encoders | findstr nvenc";

pub const AMF_FIX: &'static str =
    "Expected on any non-AMD-GPU machine, or an outdated AMD driver. Update the AMD\n\
    graphics driver if this machine has an AMD GPU and you expected AMF to work.";

pub const WINDOWS_SOFTWARE_FIX: &'static str =
    "If QSV, NVENC, and AMF also failed above, this machine cannot encode video at\n\
    all with the current ffmpeg. The bundled ffmpeg.exe includes libx264; if you\n\
    replaced it with your own build, make sure that build has libx264 enabled.";

pub const WINDOWS_PAIRING_FIX: &'static str =
    "These are generated the first time the daemon starts. If they are still\n\
    missing, the daemon has never started successfully -- check the Scheduled Task\n\
    history in Task Scheduler, or run palmtopd.exe directly from a terminal to see\n\
    its output.";

pub const TASK_FIX: &'static str =
    "palmtopd will not start automatically at logon. Run install.ps1 to register it,\n\
    or start palmtopd.exe manually each time you want to use Palmtop.";

pub const BACKEND_FIX_LINUX: &'static str =
    "\nNone of VA-API, NVENC, or software encoding work on this machine with the currently installed ffmpeg. See the individual checks above for what to install.";

pub const BACKEND_FIX_WINDOWS: &'static str =
    "\nNone of Quick Sync, NVENC, AMF, or software encoding work on this machine with the currently installed ffmpeg. See the individual checks above for what to install.";

/// The text of an optional string.
pub open spec fn opt(s: Option<String>) -> Option<Seq<char>> {
    match s {
        Some(s) => Some(s@),
        None => None,
    }
}

/// The value of an environment variable, unless it is empty.
pub open spec fn present(v: Option<Seq<char>>) -> Option<Seq<char>> {
    match v {
        Some(s) if s.len() > 0 => Some(s),
        _ => None,
    }
}

// ---- the session ----

/// The line on the display.
pub open spec fn wayland_check(display: Option<Seq<char>>) -> CheckView {
    match present(display) {
        Some(v) => diagnostics::passed("Wayland session"@, "WAYLAND_DISPLAY="@ + v),
        None => diagnostics::failed(
            "Wayland session"@,
            "WAYLAND_DISPLAY is not set"@,
            WAYLAND_FIX@,
        ),
    }
}

/// The line on a variable that the portal needs.
pub open spec fn variable_check(name: Seq<char>, value: Option<Seq<char>>) -> CheckView {
    match present(value) {
        Some(v) => diagnostics::passed(name, v),
        None => diagnostics::failed(
            name,
            "not set"@,
            "The portal is reached over the session DBus, which cannot be found without\n$"@ + name
                + ". If you are running under systemd, import it once:\nsystemctl --user import-environment "@
                + name + "\nsystemctl --user restart palmtopd"@,
        ),
    }
}

/// The lines on the session.
pub open spec fn session_checks(
    display: Option<Seq<char>>,
    runtime_dir: Option<Seq<char>>,
    bus: Option<Seq<char>>,
) -> Seq<CheckView> {
    seq![
        wayland_check(display),
        variable_check("XDG_RUNTIME_DIR"@, runtime_dir),
        variable_check("DBUS_SESSION_BUS_ADDRESS"@, bus),
    ]
}

fn check_variable(r: &mut Report, name: &str, value: &Option<String>)
    ensures
        final(r)@ == old(r)@.push(variable_check(name@, opt(*value))),
{
    if let Some(v) = value {
        if !v.as_str().is_empty() {
            r.pass(name, v.as_str());
            return ;
        }
    }
    let mut fix = "The portal is reached over the session DBus, which cannot be found without\n$".to_owned();
    fix.append(name);
    fix.append(
        ". If you are running under systemd, import it once:\nsystemctl --user import-environment ",
    );
    fix.append(name);
    fix.append("\nsystemctl --user restart palmtopd");
    r.fail(name, "not set", fix.as_str());
}

pub fn check_session(
    r: &mut Report,
    display: &Option<String>,
    runtime_dir: &Option<String>,
    bus: &Option<String>,
)
    ensures
        final(r)@ == old(r)@ + session_checks(opt(*display), opt(*runtime_dir), opt(*bus)),
{
    let mut here = false;
    if let Some(v) = display {
        if !v.as_str().is_empty() {
            let detail = "WAYLAND_DISPLAY=".to_owned().concat(v.as_str());
            r.pass("Wayland session", detail.as_str());
            here = true;
        }
    }
    if !here {
        r.fail("Wayland session", "WAYLAND_DISPLAY is not set", WAYLAND_FIX);
    }
    check_variable(r, "XDG_RUNTIME_DIR", runtime_dir);
    check_variable(r, "DBUS_SESSION_BUS_ADDRESS", bus);
    assert(r@ =~= old(r)@ + session_checks(opt(*display), opt(*runtime_dir), opt(*bus)));
}

// ---- the portal and PipeWire ----

/// What asking the desktop portal gave.
pub enum PortalProbe {
    /// It could not be asked, for this reason.
    NotAsked(String),
    /// It offers screen casting, with these cursor modes.
    Available(String),
    /// It does not, for this reason.
    Unavailable(String),
}

/// The line on the portal.
pub open spec fn portal_check(p: PortalProbe) -> CheckView {
    match p {
        PortalProbe::NotAsked(e) => diagnostics::warned(
            "Desktop portal"@,
            "could not probe: "@ + e@,
            "This is a bug in the check itself, not your system."@,
        ),
        PortalProbe::Available(modes) => diagnostics::passed(
            "Desktop portal"@,
            "ScreenCast available (cursor modes: "@ + modes@ + ")"@,
        ),
        PortalProbe::Unavailable(e) => diagnostics::failed(
            "Desktop portal"@,
            "ScreenCast unavailable: "@ + e@,
            PORTAL_FIX@,
        ),
    }
}

pub fn check_portal(r: &mut Report, p: &PortalProbe)
    ensures
        final(r)@ == old(r)@.push(portal_check(*p)),
{
    match p {
        PortalProbe::NotAsked(e) => {
            let detail = "could not probe: ".to_owned().concat(e.as_str());
            r.warn(
                "Desktop portal",
                detail.as_str(),
                "This is a bug in the check itself, not your system.",
            );
        },
        PortalProbe::Available(modes) => {
            let mut detail = "ScreenCast available (cursor modes: ".to_owned();
            detail.append(modes.as_str());
            detail.append(")");
            r.pass("Desktop portal", detail.as_str());
        },
        PortalProbe::Unavailable(e) => {
            let detail = "ScreenCast unavailable: ".to_owned().concat(e.as_str());
            r.fail("Desktop portal", detail.as_str(), PORTAL_FIX);
        },
    }
}

/// The line on PipeWire, whose socket has this path where there is one.
pub open spec fn pipewire_check(socket: Option<Seq<char>>) -> CheckView {
    match socket {
        Some(p) => diagnostics::passed("PipeWire"@, "socket at "@ + p),
        None => diagnostics::failed("PipeWire"@, "no pipewire-0 socket found"@, PIPEWIRE_FIX@),
    }
}

pub fn check_pipewire(r: &mut Report, socket: &Option<String>)
    ensures
        final(r)@ == old(r)@.push(pipewire_check(opt(*socket))),
{
    match socket {
        Some(p) => {
            let detail = "socket at ".to_owned().concat(p.as_str());
            r.pass("PipeWire", detail.as_str());
        },
        None => r.fail("PipeWire", "no pipewire-0 socket found", PIPEWIRE_FIX),
    }
}

// ---- ffmpeg ----

/// Where the first line of a text ends.
pub open spec fn line_end(s: Seq<char>, from: int) -> int
    decreases s.len() - from,
{
    if from >= s.len() || s[from] == '\n' {
        from
    } else {
        line_end(s, from + 1)
    }
}

/// The first line of what ffmpeg says of its version; a carriage return in front of the line break
/// is part of the break.
pub open spec fn version_line(s: Seq<char>) -> Seq<char> {
    let n = line_end(s, 0);
    if s.len() == 0 {
        "ffmpeg"@
    } else if n < s.len() && n > 0 && s[n - 1] == '\r' {
        s.take(n - 1)
    } else {
        s.take(n)
    }
}

fn first_line(s: &str) -> (res: String)
    ensures
        res@ == version_line(s@),
{
    let v = text::chars_of(s);
    if v.len() == 0 {
        return "ffmpeg".to_owned();
    }
    let mut n: usize = 0;
    while n < v.len() && v[n] != '\n'
        invariant
            n <= v.len(),
            v@ == s@,
            line_end(s@, 0) == line_end(s@, n as int),
        decreases v.len() - n,
    {
        n = n + 1;
    }
    let end: usize = if n < v.len() && n > 0 && v[n - 1] == '\r' {
        n - 1
    } else {
        n
    };
    let line = vstd::slice::slice_subrange(v.as_slice(), 0, end);
    assert(line@ =~= s@.take(end as int));
    text::string_of(line)
}

/// The line on ffmpeg, which said this of its version where it could be run.
pub open spec fn ffmpeg_check(p: Platform, version: Option<Seq<char>>) -> CheckView {
    match version {
        Some(v) => diagnostics::passed("ffmpeg"@, version_line(v)),
        None => diagnostics::failed(
            "ffmpeg"@,
            "not found on PATH"@,
            match p {
                Platform::Linux => LINUX_FFMPEG_FIX@,
                Platform::Windows => WINDOWS_FFMPEG_FIX@,
            },
        ),
    }
}

pub fn check_ffmpeg(r: &mut Report, p: Platform, version: &Option<String>)
    ensures
        final(r)@ == old(r)@.push(ffmpeg_check(p, opt(*version))),
{
    match version {
        Some(v) => {
            let line = first_line(v.as_str());
            r.pass("ffmpeg", line.as_str());
        },
        None => r.fail(
            "ffmpeg",
            "not found on PATH",
            match p {
                Platform::Linux => LINUX_FFMPEG_FIX,
                Platform::Windows => WINDOWS_FFMPEG_FIX,
            },
        ),
    }
}

// ---- VA-API ----

/// The nodes that can encode.
pub open spec fn working_nodes(nodes: Seq<Seq<char>>, works: Seq<bool>) -> Seq<Seq<char>>
    decreases nodes.len(),
{
    if nodes.len() == 0 {
        Seq::empty()
    } else if works[nodes.len() - 1] {
        working_nodes(nodes.drop_last(), works).push(nodes.last())
    } else {
        working_nodes(nodes.drop_last(), works)
    }
}

/// The line on the configured node, where some node can encode.
pub open spec fn configured_node_check(
    configured: Seq<char>,
    working: Seq<Seq<char>>,
) -> CheckView {
    if configured.len() == 0 {
        diagnostics::warned(
            "Configured render node"@,
            "not set (will auto-detect at startup)"@,
            "Nothing to fix -- the daemon will pick "@ + working[0] + " automatically."@,
        )
    } else if working.contains(configured) {
        diagnostics::passed("Configured render node"@, configured)
    } else {
        diagnostics::warned(
            "Configured render node"@,
            configured + " cannot encode h264_vaapi"@,
            "Not fatal -- the daemon auto-heals this at startup by picking a working node\ninstead. To silence this warning, edit the `vaapi_render_node` line in your\nhost.toml to:\nvaapi_render_node = \""@
                + working[0]
                + "\"\nor clear it (vaapi_render_node = \"\") to auto-detect on every start."@,
        )
    }
}

/// The lines on VA-API: the nodes there are, and whether each of them can encode.
pub open spec fn vaapi_checks(
    configured: Seq<char>,
    nodes: Seq<Seq<char>>,
    works: Seq<bool>,
) -> Seq<CheckView> {
    let working = working_nodes(nodes, works);
    if nodes.len() == 0 {
        seq![
            diagnostics::warned(
                "VA-API render nodes"@,
                "none found under /dev/dri"@,
                NO_NODES_FIX@,
            ),
        ]
    } else if working.len() == 0 {
        seq![
            diagnostics::warned(
                "VA-API hardware encode"@,
                "no node among ["@ + text::joined(nodes, ", "@) + "] can encode h264_vaapi"@,
                NO_VAAPI_FIX@,
            ),
        ]
    } else {
        seq![
            diagnostics::passed(
                "VA-API hardware encode"@,
                "h264_vaapi works on "@ + text::joined(working, ", "@),
            ),
            configured_node_check(configured, working),
        ]
    }
}

pub fn check_vaapi(r: &mut Report, configured: &str, nodes: &Vec<String>, works: &Vec<bool>)
    requires
        nodes@.len() == works@.len(),
    ensures
        final(r)@ == old(r)@ + vaapi_checks(configured@, text::views(nodes@), works@),
{
    let ghost all = text::views(nodes@);
    let ghost expected = vaapi_checks(configured@, all, works@);
    if nodes.len() == 0 {
        r.warn("VA-API render nodes", "none found under /dev/dri", NO_NODES_FIX);
        assert(r@ =~= old(r)@ + expected);
        return ;
    }
    let mut working: Vec<String> = Vec::new();
    let mut i: usize = 0;
    assert(text::views(working@) =~= working_nodes(all.take(0), works@));
    while i < nodes.len()
        invariant
            i <= nodes.len() == works.len(),
            all == text::views(nodes@),
            text::views(working@) == working_nodes(all.take(i as int), works@),
        decreases nodes.len() - i,
    {
        proof {
            assert(all.take(i + 1).drop_last() =~= all.take(i as int));
            assert(all.take(i + 1).last() == nodes@[i as int]@);
        }
        if works[i] {
            text::push_text(&mut working, nodes[i].as_str());
        }
        i = i + 1;
    }
    assert(all.take(i as int) =~= all);
    if working.len() == 0 {
        let mut detail = "no node among [".to_owned();
        detail.append(text::join(nodes, ", ").as_str());
        detail.append("] can encode h264_vaapi");
        r.warn("VA-API hardware encode", detail.as_str(), NO_VAAPI_FIX);
        assert(r@ =~= old(r)@ + expected);
        return ;
    }
    assert(text::views(working@)[0] == working@[0]@);
    let list = text::join(&working, ", ");
    let detail = "h264_vaapi works on ".to_owned().concat(list.as_str());
    r.pass("VA-API hardware encode", detail.as_str());
    if configured.is_empty() {
        let mut fix = "Nothing to fix -- the daemon will pick ".to_owned();
        fix.append(working[0].as_str());
        fix.append(" automatically.");
        r.warn(
            "Configured render node",
            "not set (will auto-detect at startup)",
            fix.as_str(),
        );
    } else if text::list_contains(&working, configured) {
        r.pass("Configured render node", configured);
    } else {
        let detail = configured.to_owned().concat(" cannot encode h264_vaapi");
        let mut fix = "Not fatal -- the daemon auto-heals this at startup by picking a working node\ninstead. To silence this warning, edit the `vaapi_render_node` line in your\nhost.toml to:\nvaapi_render_node = \"".to_owned();
        fix.append(working[0].as_str());
        fix.append("\"\nor clear it (vaapi_render_node = \"\") to auto-detect on every start.");
        r.warn("Configured render node", detail.as_str(), fix.as_str());
    }
    assert(r@ =~= old(r)@ + expected);
}

// ---- the other encoders ----

/// The line on an encoder that either works or is worth a warning.
pub open spec fn encoder_check(
    name: Seq<char>,
    works: bool,
    good: Seq<char>,
    bad: Seq<char>,
    fix: Seq<char>,
) -> CheckView {
    if works {
        diagnostics::passed(name, good)
    } else {
        diagnostics::warned(name, bad, fix)
    }
}

pub open spec fn nvenc_check(p: Platform, works: bool) -> CheckView {
    encoder_check(
        "NVENC hardware encode"@,
        works,
        "works (h264_nvenc)"@,
        "not available"@,
        match p {
            Platform::Linux => LINUX_NVENC_FIX@,
            Platform::Windows => WINDOWS_NVENC_FIX@,
        },
    )
}

pub open spec fn software_check(p: Platform, works: bool) -> CheckView {
    encoder_check(
        "Software encode"@,
        works,
        "works (libx264) -- the fallback of last resort"@,
        "libx264 not available in this ffmpeg build"@,
        match p {
            Platform::Linux => LINUX_SOFTWARE_FIX@,
            Platform::Windows => WINDOWS_SOFTWARE_FIX@,
        },
    )
}

pub open spec fn qsv_check(works: bool) -> CheckView {
    encoder_check(
        "Intel Quick Sync (QSV)"@,
        works,
        "works (h264_qsv)"@,
        "not available"@,
        QSV_FIX@,
    )
}

pub open spec fn amf_check(works: bool) -> CheckView {
    encoder_check("AMD AMF"@, works, "works (h264_amf)"@, "not available"@, AMF_FIX@)
}

pub fn check_nvenc(r: &mut Report, p: Platform, works: bool)
    ensures
        final(r)@ == old(r)@.push(nvenc_check(p, works)),
{
    if works {
        r.pass("NVENC hardware encode", "works (h264_nvenc)");
    } else {
        r.warn(
            "NVENC hardware encode",
            "not available",
            match p {
                Platform::Linux => LINUX_NVENC_FIX,
                Platform::Windows => WINDOWS_NVENC_FIX,
            },
        );
    }
}

pub fn check_software(r: &mut Report, p: Platform, works: bool)
    ensures
        final(r)@ == old(r)@.push(software_check(p, works)),
{
    if works {
        r.pass("Software encode", "works (libx264) -- the fallback of last resort");
    } else {
        r.warn(
            "Software encode",
            "libx264 not available in this ffmpeg build",
            match p {
                Platform::Linux => LINUX_SOFTWARE_FIX,
                Platform::Windows => WINDOWS_SOFTWARE_FIX,
            },
        );
    }
}

pub fn check_qsv(r: &mut Report, works: bool)
    ensures
        final(r)@ == old(r)@.push(qsv_check(works)),
{
    if works {
        r.pass("Intel Quick Sync (QSV)", "works (h264_qsv)");
    } else {
        r.warn("Intel Quick Sync (QSV)", "not available", QSV_FIX);
    }
}

pub fn check_amf(r: &mut Report, works: bool)
    ensures
        final(r)@ == old(r)@.push(amf_check(works)),
{
    if works {
        r.pass("AMD AMF", "works (h264_amf)");
    } else {
        r.warn("AMD AMF", "not available", AMF_FIX);
    }
}

// ---- the verdict on encoders, and the configuration ----

/// The line on the encoder that the daemon will use, where there is a configuration.
pub open spec fn backend_checks(
    p: Platform,
    configured: bool,
    chosen: Option<backend::BackendView>,
) -> Seq<CheckView> {
    if !configured {
        Seq::empty()
    } else {
        match chosen {
            Some(b) => seq![
                diagnostics::passed(
                    "Video encoder"@,
                    "will stream via "@ + backend::label_of(b),
                ),
            ],
            None => seq![
                diagnostics::failed(
                    "Video encoder"@,
                    "no working backend found"@,
                    backend::no_encoder_text(p) + (match p {
                        Platform::Linux => BACKEND_FIX_LINUX@,
                        Platform::Windows => BACKEND_FIX_WINDOWS@,
                    }),
                ),
            ],
        }
    }
}

/// The encoder of an optional one.
pub open spec fn opt_backend(b: Option<EncodeBackend>) -> Option<backend::BackendView> {
    match b {
        Some(b) => Some(b@),
        None => None,
    }
}

pub fn check_resolved_backend(
    r: &mut Report,
    p: Platform,
    configured: bool,
    chosen: &Option<EncodeBackend>,
)
    ensures
        final(r)@ == old(r)@ + backend_checks(p, configured, opt_backend(*chosen)),
{
    if configured {
        match chosen {
            Some(b) => {
                let detail = "will stream via ".to_owned().concat(b.to_string().as_str());
                r.pass("Video encoder", detail.as_str());
            },
            None => {
                let fix = no_encoder(p).to_owned().concat(
                    match p {
                        Platform::Linux => BACKEND_FIX_LINUX,
                        Platform::Windows => BACKEND_FIX_WINDOWS,
                    },
                );
                r.fail("Video encoder", "no working backend found", fix.as_str());
            },
        }
    }
    assert(r@ =~= old(r)@ + backend_checks(p, configured, opt_backend(*chosen)));
}

/// The line on the address, which is the configured one or else the one that was detected.
pub open spec fn address_check(
    ip: Seq<char>,
    port: u16,
    detected: Result<Seq<char>, Seq<char>>,
) -> CheckView {
    let address = if ip.len() > 0 {
        Ok(ip)
    } else {
        detected
    };
    match address {
        Ok(a) => diagnostics::passed(
            "Host address"@,
            a + ":"@ + text::decimal(port as nat),
        ),
        Err(cause) => diagnostics::failed(
            "Host address"@,
            config::no_address_text(cause),
            ADDRESS_FIX@,
        ),
    }
}

/// The lines on the configuration.
pub open spec fn config_checks(
    p: Platform,
    cfg: Option<HostConfig>,
    detected: Result<Seq<char>, Seq<char>>,
) -> Seq<CheckView> {
    match cfg {
        None => seq![
            diagnostics::failed(
                "Configuration"@,
                "could not be loaded"@,
                match p {
                    Platform::Linux =>
                        "Run ./install.sh to create host.toml, then re-run this check."@,
                    Platform::Windows =>
                        "Run install.ps1 to create host.toml, then re-run this check."@,
                },
            ),
        ],
        Some(c) => seq![
            if c.pairing.token@.len() == 0 || c.pairing.noise_public_key@.len() == 0 {
                diagnostics::failed(
                    "Pairing credentials"@,
                    "missing token or host key"@,
                    match p {
                        Platform::Linux => LINUX_PAIRING_FIX@,
                        Platform::Windows => WINDOWS_PAIRING_FIX@,
                    },
                )
            } else {
                diagnostics::passed("Pairing credentials"@, "token and host key present"@)
            },
            address_check(c.host.ip@, c.host.port, detected),
        ],
    }
}

/// The text or the reason in a result.
pub open spec fn outcome(r: Result<String, String>) -> Result<Seq<char>, Seq<char>> {
    match r {
        Ok(s) => Ok(s@),
        Err(e) => Err(e@),
    }
}

/// The configuration of an optional reference to one.
pub open spec fn opt_config(cfg: Option<&HostConfig>) -> Option<HostConfig> {
    match cfg {
        Some(c) => Some(*c),
        None => None,
    }
}

pub fn check_config(
    r: &mut Report,
    p: Platform,
    cfg: Option<&HostConfig>,
    detected: Result<String, String>,
)
    ensures
        final(r)@ == old(r)@ + config_checks(p, opt_config(cfg), outcome(detected)),
{
    let ghost expected = config_checks(p, opt_config(cfg), outcome(detected));
    match cfg {
        None => {
            r.fail(
                "Configuration",
                "could not be loaded",
                match p {
                    Platform::Linux =>
                        "Run ./install.sh to create host.toml, then re-run this check.",
                    Platform::Windows =>
                        "Run install.ps1 to create host.toml, then re-run this check.",
                },
            );
        },
        Some(c) => {
            if c.pairing.token.as_str().is_empty()
                || c.pairing.noise_public_key.as_str().is_empty() {
                r.fail(
                    "Pairing credentials",
                    "missing token or host key",
                    match p {
                        Platform::Linux => LINUX_PAIRING_FIX,
                        Platform::Windows => WINDOWS_PAIRING_FIX,
                    },
                );
            } else {
                r.pass("Pairing credentials", "token and host key present");
            }
            match c.resolved_ip(detected) {
                Ok(ip) => {
                    let mut detail = ip;
                    detail.append(":");
                    text::push_decimal(&mut detail, c.host.port as u64);
                    r.pass("Host address", detail.as_str());
                },
                Err(e) => r.fail("Host address", e.with_cause().as_str(), ADDRESS_FIX),
            }
        },
    }
    assert(r@ =~= old(r)@ + expected);
}

// ---- Windows ----

/// The first build of Windows with the capture interface: Windows 10, version 1903.
pub const WGC_MIN_BUILD: u32 = 18362;

#[derive(Debug, Clone, Copy, PartialEq, Eq, Structural)]
pub enum BuildCheck {
    Recent(u32),
    TooOld(u32),
    Unknown,
}

/// What a build number means. A number that is not known is no failure.
pub open spec fn build_class(build: Option<u32>) -> BuildCheck {
    match build {
        Some(b) => if b >= WGC_MIN_BUILD {
            BuildCheck::Recent(b)
        } else {
            BuildCheck::TooOld(b)
        },
        None => BuildCheck::Unknown,
    }
}

pub fn classify_build(build: Option<u32>) -> (res: BuildCheck)
    ensures
        res == build_class(build),
{
    match build {
        Some(b) => if b >= WGC_MIN_BUILD {
            BuildCheck::Recent(b)
        } else {
            BuildCheck::TooOld(b)
        },
        None => BuildCheck::Unknown,
    }
}

/// The line on the version of Windows.
pub open spec fn windows_version_check(build: Option<u32>) -> CheckView {
    match build_class(build) {
        BuildCheck::Recent(b) => diagnostics::passed(
            "Windows.Graphics.Capture"@,
            "build "@ + text::decimal(b as nat) + " >= 18362 (Win10 1903)"@,
        ),
        BuildCheck::TooOld(b) => diagnostics::failed(
            "Windows.Graphics.Capture"@,
            "build "@ + text::decimal(b as nat)
                + " is older than 18362 (Windows 10 version 1903)"@,
            OLD_BUILD_FIX@,
        ),
        BuildCheck::Unknown => diagnostics::warned(
            "Windows.Graphics.Capture"@,
            "could not determine the Windows build number"@,
            UNKNOWN_BUILD_FIX@,
        ),
    }
}

pub fn check_windows_version(r: &mut Report, build: Option<u32>)
    ensures
        final(r)@ == old(r)@.push(windows_version_check(build)),
{
    match classify_build(build) {
        BuildCheck::Recent(b) => {
            let mut detail = "build ".to_owned();
            text::push_decimal(&mut detail, b as u64);
            detail.append(" >= 18362 (Win10 1903)");
            r.pass("Windows.Graphics.Capture", detail.as_str());
        },
        BuildCheck::TooOld(b) => {
            let mut detail = "build ".to_owned();
            text::push_decimal(&mut detail, b as u64);
            detail.append(" is older than 18362 (Windows 10 version 1903)");
            r.fail("Windows.Graphics.Capture", detail.as_str(), OLD_BUILD_FIX);
        },
        BuildCheck::Unknown => r.warn(
            "Windows.Graphics.Capture",
            "could not determine the Windows build number",
            UNKNOWN_BUILD_FIX,
        ),
    }
}

/// The line on the task that starts the daemon.
pub open spec fn task_check(registered: bool) -> CheckView {
    if registered {
        diagnostics::passed("Logon Scheduled Task"@, "registered (runs palmtopd at logon)"@)
    } else {
        diagnostics::warned("Logon Scheduled Task"@, "not found"@, TASK_FIX@)
    }
}

pub fn check_scheduled_task(r: &mut Report, registered: bool)
    ensures
        final(r)@ == old(r)@.push(task_check(registered)),
{
    if registered {
        r.pass("Logon Scheduled Task", "registered (runs palmtopd at logon)");
    } else {
        r.warn("Logon Scheduled Task", "not found", TASK_FIX);
    }
}

// ---- the whole report ----

/// What is known of a Linux machine.
pub struct LinuxFacts {
    pub wayland_display: Option<String>,
    pub runtime_dir: Option<String>,
    pub bus_address: Option<String>,
    pub portal: PortalProbe,
    /// The path of PipeWire's socket.
    pub pipewire_socket: Option<String>,
    /// What ffmpeg says of its version.
    pub ffmpeg: Option<String>,
    pub nodes: Vec<String>,
    /// Whether each of the nodes can encode.
    pub node_works: Vec<bool>,
    pub nvenc: bool,
    pub software: bool,
    /// The detected address, or why none was.
    pub detected_ip: Result<String, String>,
    /// The encoder that the search ended with.
    pub backend: Option<EncodeBackend>,
}

/// The report on a Linux machine.
pub open spec fn linux_report(f: LinuxFacts, cfg: Option<HostConfig>) -> Seq<CheckView> {
    let node = match cfg {
        Some(c) => c.gpu.vaapi_render_node@,
        None => Seq::empty(),
    };
    session_checks(opt(f.wayland_display), opt(f.runtime_dir), opt(f.bus_address)) + seq![
        portal_check(f.portal),
        pipewire_check(opt(f.pipewire_socket)),
        ffmpeg_check(Platform::Linux, opt(f.ffmpeg)),
    ] + vaapi_checks(node, text::views(f.nodes@), f.node_works@) + seq![
        nvenc_check(Platform::Linux, f.nvenc),
        software_check(Platform::Linux, f.software),
    ] + config_checks(Platform::Linux, cfg, outcome(f.detected_ip)) + backend_checks(
        Platform::Linux,
        cfg is Some,
        opt_backend(f.backend),
    )
}

/// What is known of a Windows machine.
pub struct WindowsFacts {
    pub build: Option<u32>,
    pub ffmpeg: Option<String>,
    pub qsv: bool,
    pub nvenc: bool,
    pub amf: bool,
    pub software: bool,
    /// The detected address, or why none was.
    pub detected_ip: Result<String, String>,
    pub backend: Option<EncodeBackend>,
    /// Whether the task that starts the daemon is registered.
    pub task: bool,
}

/// The report on a Windows machine.
pub open spec fn windows_report(f: WindowsFacts, cfg: Option<HostConfig>) -> Seq<CheckView> {
    seq![
        windows_version_check(f.build),
        ffmpeg_check(Platform::Windows, opt(f.ffmpeg)),
        qsv_check(f.qsv),
        nvenc_check(Platform::Windows, f.nvenc),
        amf_check(f.amf),
        software_check(Platform::Windows, f.software),
    ] + config_checks(Platform::Windows, cfg, outcome(f.detected_ip)) + backend_checks(
        Platform::Windows,
        cfg is Some,
        opt_backend(f.backend),
    ) + seq![task_check(f.task)]
}

/// The report as it is printed, and whether nothing failed.
pub struct Diagnosis {
    pub report: String,
    pub healthy: bool,
}

/// Runs every check on a Linux machine.
pub fn run_linux(f: LinuxFacts, cfg: Option<&HostConfig>) -> (res: Diagnosis)
    requires
        f.nodes@.len() == f.node_works@.len(),
    ensures
        res.report@ == diagnostics::rendered(linux_report(f, opt_config(cfg))),
        res.healthy == (diagnostics::failure_count(linux_report(f, opt_config(cfg))) == 0),
{
    let ghost expected = linux_report(f, opt_config(cfg));
    let mut r = Report::new();
    check_session(&mut r, &f.wayland_display, &f.runtime_dir, &f.bus_address);
    check_portal(&mut r, &f.portal);
    check_pipewire(&mut r, &f.pipewire_socket);
    check_ffmpeg(&mut r, Platform::Linux, &f.ffmpeg);
    match cfg {
        Some(c) => check_vaapi(
            &mut r,
            c.gpu.vaapi_render_node.as_str(),
            &f.nodes,
            &f.node_works,
        ),
        None => {
            let none = String::new();
            check_vaapi(&mut r, none.as_str(), &f.nodes, &f.node_works);
        },
    }
    check_nvenc(&mut r, Platform::Linux, f.nvenc);
    check_software(&mut r, Platform::Linux, f.software);
    check_config(&mut r, Platform::Linux, cfg, f.detected_ip);
    check_resolved_backend(&mut r, Platform::Linux, cfg.is_some(), &f.backend);
    assert(r@ =~= expected);
    Diagnosis { report: r.render(), healthy: r.failures() == 0 }
}

/// Runs every check on a Windows machine.
pub fn run_windows(f: WindowsFacts, cfg: Option<&HostConfig>) -> (res: Diagnosis)
    ensures
        res.report@ == diagnostics::rendered(windows_report(f, opt_config(cfg))),
        res.healthy == (diagnostics::failure_count(windows_report(f, opt_config(cfg))) == 0),
{
    let ghost expected = windows_report(f, opt_config(cfg));
    let mut r = Report::new();
    check_windows_version(&mut r, f.build);
    check_ffmpeg(&mut r, Platform::Windows, &f.ffmpeg);
    check_qsv(&mut r, f.qsv);
    check_nvenc(&mut r, Platform::Windows, f.nvenc);
    check_amf(&mut r, f.amf);
    check_software(&mut r, Platform::Windows, f.software);
    check_config(&mut r, Platform::Windows, cfg, f.detected_ip);
    check_resolved_backend(&mut r, Platform::Windows, cfg.is_some(), &f.backend);
    check_scheduled_task(&mut r, f.task);
    assert(r@ =~= expected);
    Diagnosis { report: r.render(), healthy: r.failures() == 0 }
}

// ---- laws ----

/// A single encoder that does not work is never a failure, whatever else holds: what fails is that
/// none of them does.
pub proof fn one_missing_encoder_is_no_failure(
    p: Platform,
    works: bool,
    configured: Seq<char>,
    nodes: Seq<Seq<char>>,
    node_works: Seq<bool>,
)
    ensures
        nvenc_check(p, works).status != diagnostics::Status::Fail,
        software_check(p, works).status != diagnostics::Status::Fail,
        qsv_check(works).status != diagnostics::Status::Fail,
        amf_check(works).status != diagnostics::Status::Fail,
        forall|i: int|
            0 <= i < vaapi_checks(configured, nodes, node_works).len() ==> (
            #[trigger] vaapi_checks(configured, nodes, node_works)[i]).status
                != diagnostics::Status::Fail,
        forall|b: backend::BackendView|
            #[trigger] backend_checks(p, true, Some(b))[0].status == diagnostics::Status::Pass,
        backend_checks(p, true, None)[0].status == diagnostics::Status::Fail,
{
}

/// Whether a Windows machine has a known build number is never what fails; an old one is.
pub proof fn only_an_old_build_fails(build: Option<u32>)
    ensures
        windows_version_check(build).status == diagnostics::Status::Fail <==> (build matches Some(b)
            && b < WGC_MIN_BUILD),
{
}

/// Whether an environment variable is set to something.
pub open spec fn is_set(v: Option<String>) -> bool {
    v matches Some(s) && s@.len() > 0
}

/// Whether a configuration can be used: it is there, with a token and the host's key, and with an
/// address, or one was detected.
pub open spec fn is_usable(cfg: Option<HostConfig>, detected: Result<String, String>) -> bool {
    &&& cfg matches Some(c)
    &&& c.pairing.token@.len() > 0
    &&& c.pairing.noise_public_key@.len() > 0
    &&& c.host.ip@.len() > 0 || detected is Ok
}

proof fn lemma_failures_of_config(
    p: Platform,
    cfg: Option<HostConfig>,
    detected: Result<String, String>,
    chosen: Option<EncodeBackend>,
)
    ensures
        diagnostics::failure_count(
            config_checks(p, cfg, outcome(detected)) + backend_checks(
                p,
                cfg is Some,
                opt_backend(chosen),
            ),
        ) == 0 <==> is_usable(cfg, detected) && chosen is Some,
{
    let a = config_checks(p, cfg, outcome(detected));
    let b = backend_checks(p, cfg is Some, opt_backend(chosen));
    let r = a + b;
    diagnostics::no_failures_mean_no_failing_line(r);
    assert(r[0] == a[0]);
    if cfg is Some {
        assert(r[1] == a[1]);
        assert(r[2] == b[0]);
    }
}

/// A Linux machine is found healthy where all of this holds, and only there: the session has a display,
/// a runtime directory and a bus; the portal has not refused to offer the screen; PipeWire and ffmpeg
/// are there; the configuration can be used; and some encoder works.
pub proof fn a_linux_machine_is_healthy_where_nothing_is_missing(
    f: LinuxFacts,
    cfg: Option<HostConfig>,
)
    ensures
        diagnostics::failure_count(linux_report(f, cfg)) == 0 <==> {
            &&& is_set(f.wayland_display)
            &&& is_set(f.runtime_dir)
            &&& is_set(f.bus_address)
            &&& f.portal !is Unavailable
            &&& f.pipewire_socket is Some
            &&& f.ffmpeg is Some
            &&& is_usable(cfg, f.detected_ip)
            &&& f.backend is Some
        },
{
    let node = match cfg {
        Some(c) => c.gpu.vaapi_render_node@,
        None => Seq::empty(),
    };
    let session = session_checks(opt(f.wayland_display), opt(f.runtime_dir), opt(f.bus_address));
    let tools = seq![
        portal_check(f.portal),
        pipewire_check(opt(f.pipewire_socket)),
        ffmpeg_check(Platform::Linux, opt(f.ffmpeg)),
    ];
    let vaapi = vaapi_checks(node, text::views(f.nodes@), f.node_works@);
    let others = seq![
        nvenc_check(Platform::Linux, f.nvenc),
        software_check(Platform::Linux, f.software),
    ];
    let config = config_checks(Platform::Linux, cfg, outcome(f.detected_ip));
    let backend = backend_checks(Platform::Linux, cfg is Some, opt_backend(f.backend));
    assert(linux_report(f, cfg) =~= session + tools + vaapi + others + (config + backend));
    diagnostics::failures_add_up(session + tools + vaapi + others, config + backend);
    diagnostics::failures_add_up(session + tools + vaapi, others);
    diagnostics::failures_add_up(session + tools, vaapi);
    diagnostics::failures_add_up(session, tools);
    lemma_failures_of_config(Platform::Linux, cfg, f.detected_ip, f.backend);
    assert(diagnostics::failure_count(session) == 0 <==> is_set(f.wayland_display) && is_set(
        f.runtime_dir,
    ) && is_set(f.bus_address)) by {
        diagnostics::no_failures_mean_no_failing_line(session);
        assert(session[0] == wayland_check(opt(f.wayland_display)));
        assert(session[1] == variable_check("XDG_RUNTIME_DIR"@, opt(f.runtime_dir)));
        assert(session[2] == variable_check("DBUS_SESSION_BUS_ADDRESS"@, opt(f.bus_address)));
    }
    assert(diagnostics::failure_count(tools) == 0 <==> f.portal !is Unavailable && f.pipewire_socket
        is Some && f.ffmpeg is Some) by {
        diagnostics::no_failures_mean_no_failing_line(tools);
        assert(tools[0] == portal_check(f.portal));
        assert(tools[1] == pipewire_check(opt(f.pipewire_socket)));
        assert(tools[2] == ffmpeg_check(Platform::Linux, opt(f.ffmpeg)));
    }
    diagnostics::no_failures_mean_no_failing_line(vaapi);
    diagnostics::no_failures_mean_no_failing_line(others);
}

/// A Windows machine is found healthy where all of this holds, and only there: its build is not known
/// to be older than 18362; ffmpeg is there; the configuration can be used; and some encoder works.
pub proof fn a_windows_machine_is_healthy_where_nothing_is_missing(
    f: WindowsFacts,
    cfg: Option<HostConfig>,
)
    ensures
        diagnostics::failure_count(windows_report(f, cfg)) == 0 <==> {
            &&& f.build matches Some(b) ==> b >= 18362
            &&& f.ffmpeg is Some
            &&& is_usable(cfg, f.detected_ip)
            &&& f.backend is Some
        },
{
    let tools = seq![
        windows_version_check(f.build),
        ffmpeg_check(Platform::Windows, opt(f.ffmpeg)),
        qsv_check(f.qsv),
        nvenc_check(Platform::Windows, f.nvenc),
        amf_check(f.amf),
        software_check(Platform::Windows, f.software),
    ];
    let config = config_checks(Platform::Windows, cfg, outcome(f.detected_ip));
    let backend = backend_checks(Platform::Windows, cfg is Some, opt_backend(f.backend));
    let last = seq![task_check(f.task)];
    assert(windows_report(f, cfg) =~= tools + (config + backend) + last);
    diagnostics::failures_add_up(tools + (config + backend), last);
    diagnostics::failures_add_up(tools, config + backend);
    lemma_failures_of_config(Platform::Windows, cfg, f.detected_ip, f.backend);
    diagnostics::no_failures_mean_no_failing_line(last);
    assert(diagnostics::failure_count(tools) == 0 <==> (f.build matches Some(b) ==> b >= 18362)
        && f.ffmpeg is Some) by {
        diagnostics::no_failures_mean_no_failing_line(tools);
        assert(tools[0] == windows_version_check(f.build));
        assert(tools[1] == ffmpeg_check(Platform::Windows, opt(f.ffmpeg)));
    }
}

/// The lines on the session: what the display, the runtime directory and the bus are set to, where they
/// are set to something; and else which of them is not.
pub proof fn the_session_is_described(v: Seq<char>, name: Seq<char>, d: Option<Seq<char>>)
    ensures
        v.len() > 0 ==> wayland_check(Some(v)) == diagnostics::passed(
            "Wayland session"@,
            "WAYLAND_DISPLAY="@ + v,
        ),
        v.len() == 0 ==> wayland_check(Some(v)) == wayland_check(None),
        wayland_check(None) == diagnostics::failed(
            "Wayland session"@,
            "WAYLAND_DISPLAY is not set"@,
            WAYLAND_FIX@,
        ),
        v.len() > 0 ==> variable_check(name, Some(v)) == diagnostics::passed(name, v),
        v.len() == 0 ==> variable_check(name, Some(v)) == variable_check(name, None),
        variable_check(name, None) == diagnostics::failed(
            name,
            "not set"@,
            "The portal is reached over the session DBus, which cannot be found without\n$"@ + name
                + ". If you are running under systemd, import it once:\nsystemctl --user import-environment "@
                + name + "\nsystemctl --user restart palmtopd"@,
        ),
        session_checks(d, Some(v), Some(name)) == seq![
            wayland_check(d),
            variable_check("XDG_RUNTIME_DIR"@, Some(v)),
            variable_check("DBUS_SESSION_BUS_ADDRESS"@, Some(name)),
        ],
{
}

/// The lines on the portal and on PipeWire.
pub proof fn the_way_to_the_screen_is_described(s: String, path: Seq<char>)
    ensures
        portal_check(PortalProbe::NotAsked(s)) == diagnostics::warned(
            "Desktop portal"@,
            "could not probe: "@ + s@,
            "This is a bug in the check itself, not your system."@,
        ),
        portal_check(PortalProbe::Available(s)) == diagnostics::passed(
            "Desktop portal"@,
            "ScreenCast available (cursor modes: "@ + s@ + ")"@,
        ),
        portal_check(PortalProbe::Unavailable(s)) == diagnostics::failed(
            "Desktop portal"@,
            "ScreenCast unavailable: "@ + s@,
            PORTAL_FIX@,
        ),
        pipewire_check(Some(path)) == diagnostics::passed("PipeWire"@, "socket at "@ + path),
        pipewire_check(None) == diagnostics::failed(
            "PipeWire"@,
            "no pipewire-0 socket found"@,
            PIPEWIRE_FIX@,
        ),
{
}

proof fn lemma_line_end(line: Seq<char>, rest: Seq<char>, from: int)
    requires
        0 <= from <= line.len(),
        forall|i: int| 0 <= i < line.len() ==> #[trigger] line[i] != '\n',
        rest.len() > 0 ==> rest[0] == '\n',
    ensures
        line_end(line + rest, from) == line.len(),
    decreases line.len() - from,
{
    let s = line + rest;
    if from < line.len() {
        assert(s[from] == line[from]);
        lemma_line_end(line, rest, from + 1);
    } else if rest.len() > 0 {
        assert(s[from] == rest[0]);
    }
}

/// Of what ffmpeg says of its version the first line is taken, up to a line break of either kind; where
/// it says nothing, its name is.
pub proof fn the_first_line_is_taken(line: Seq<char>, rest: Seq<char>)
    requires
        forall|i: int| 0 <= i < line.len() ==> #[trigger] line[i] != '\n',
    ensures
        version_line(Seq::empty()) == "ffmpeg"@,
        line.len() > 0 ==> version_line(line) == line,
        version_line(line + seq!['\r', '\n'] + rest) == line,
        line.len() == 0 || line.last() != '\r' ==> version_line(line + seq!['\n'] + rest) == line,
{
    let none = Seq::<char>::empty();
    lemma_line_end(line, none, 0);
    assert(line + none =~= line);
    assert(line.take(line.len() as int) =~= line);
    let a = line.push('\r');
    let s = line + seq!['\r', '\n'] + rest;
    assert(s =~= a + (seq!['\n'] + rest));
    lemma_line_end(a, seq!['\n'] + rest, 0);
    assert(s.take(line.len() as int) =~= line);
    let t = line + seq!['\n'] + rest;
    assert(t =~= line + (seq!['\n'] + rest));
    lemma_line_end(line, seq!['\n'] + rest, 0);
    assert(t.take(line.len() as int) =~= line);
}

/// The line on ffmpeg.
pub proof fn ffmpeg_is_described(p: Platform, version: Seq<char>)
    ensures
        ffmpeg_check(p, Some(version)) == diagnostics::passed("ffmpeg"@, version_line(version)),
        ffmpeg_check(Platform::Linux, None) == diagnostics::failed(
            "ffmpeg"@,
            "not found on PATH"@,
            LINUX_FFMPEG_FIX@,
        ),
        ffmpeg_check(Platform::Windows, None) == diagnostics::failed(
            "ffmpeg"@,
            "not found on PATH"@,
            WINDOWS_FFMPEG_FIX@,
        ),
{
}

/// The nodes that work are those whose trial worked, in their order.
pub proof fn nodes_work_where_their_trial_did(nodes: Seq<Seq<char>>, works: Seq<bool>, node: Seq<char>)
    requires
        nodes.len() < works.len(),
    ensures
        working_nodes(Seq::empty(), works).len() == 0,
        works[nodes.len() as int] ==> working_nodes(nodes.push(node), works) == working_nodes(
            nodes,
            works,
        ).push(node),
        !works[nodes.len() as int] ==> working_nodes(nodes.push(node), works) == working_nodes(
            nodes,
            works,
        ),
{
    assert(nodes.push(node).drop_last() =~= nodes);
}

/// The lines on VA-API: a warning where there is no node, or none that works; and else which work, and
/// whether the configured one is among them, with the one that will be taken where it is not.
pub proof fn render_nodes_are_described(
    configured: Seq<char>,
    nodes: Seq<Seq<char>>,
    works: Seq<bool>,
)
    ensures
        ({
            let lines = vaapi_checks(configured, nodes, works);
            let working = working_nodes(nodes, works);
            &&& nodes.len() == 0 ==> lines == seq![
                diagnostics::warned(
                    "VA-API render nodes"@,
                    "none found under /dev/dri"@,
                    NO_NODES_FIX@,
                ),
            ]
            &&& nodes.len() > 0 && working.len() == 0 ==> lines == seq![
                diagnostics::warned(
                    "VA-API hardware encode"@,
                    "no node among ["@ + text::joined(nodes, ", "@) + "] can encode h264_vaapi"@,
                    NO_VAAPI_FIX@,
                ),
            ]
            &&& nodes.len() > 0 && working.len() > 0 ==> lines.len() == 2 && lines[0]
                == diagnostics::passed(
                "VA-API hardware encode"@,
                "h264_vaapi works on "@ + text::joined(working, ", "@),
            )
            &&& nodes.len() > 0 && working.len() > 0 && configured.len() == 0 ==> lines[1]
                == diagnostics::warned(
                "Configured render node"@,
                "not set (will auto-detect at startup)"@,
                "Nothing to fix -- the daemon will pick "@ + working[0] + " automatically."@,
            )
            &&& nodes.len() > 0 && working.contains(configured) && configured.len() > 0 ==> lines[1]
                == diagnostics::passed("Configured render node"@, configured)
            &&& nodes.len() > 0 && working.len() > 0 && configured.len() > 0 && !working.contains(
                configured,
            ) ==> lines[1] == diagnostics::warned(
                "Configured render node"@,
                configured + " cannot encode h264_vaapi"@,
                "Not fatal -- the daemon auto-heals this at startup by picking a working node\ninstead. To silence this warning, edit the `vaapi_render_node` line in your\nhost.toml to:\nvaapi_render_node = \""@
                    + working[0]
                    + "\"\nor clear it (vaapi_render_node = \"\") to auto-detect on every start."@,
            )
        }),
{
}

/// The lines on the other encoders: each passes where it works, under ffmpeg's name for it, and warns
/// where it does not.
pub proof fn other_encoders_are_described(p: Platform)
    ensures
        nvenc_check(p, true) == diagnostics::passed("NVENC hardware encode"@, "works (h264_nvenc)"@),
        nvenc_check(Platform::Linux, false) == diagnostics::warned(
            "NVENC hardware encode"@,
            "not available"@,
            LINUX_NVENC_FIX@,
        ),
        nvenc_check(Platform::Windows, false) == diagnostics::warned(
            "NVENC hardware encode"@,
            "not available"@,
            WINDOWS_NVENC_FIX@,
        ),
        software_check(p, true) == diagnostics::passed(
            "Software encode"@,
            "works (libx264) -- the fallback of last resort"@,
        ),
        software_check(Platform::Linux, false) == diagnostics::warned(
            "Software encode"@,
            "libx264 not available in this ffmpeg build"@,
            LINUX_SOFTWARE_FIX@,
        ),
        software_check(Platform::Windows, false) == diagnostics::warned(
            "Software encode"@,
            "libx264 not available in this ffmpeg build"@,
            WINDOWS_SOFTWARE_FIX@,
        ),
        qsv_check(true) == diagnostics::passed("Intel Quick Sync (QSV)"@, "works (h264_qsv)"@),
        qsv_check(false) == diagnostics::warned(
            "Intel Quick Sync (QSV)"@,
            "not available"@,
            QSV_FIX@,
        ),
        amf_check(true) == diagnostics::passed("AMD AMF"@, "works (h264_amf)"@),
        amf_check(false) == diagnostics::warned("AMD AMF"@, "not available"@, AMF_FIX@),
{
}

/// The line on the encoder that will be used, where there is a configuration: its name, or that none
/// works.
pub proof fn the_encoder_in_use_is_described(p: Platform, b: backend::BackendView)
    ensures
        backend_checks(p, false, Some(b)).len() == 0,
        backend_checks(p, false, None).len() == 0,
        backend_checks(p, true, Some(b)) == seq![
            diagnostics::passed("Video encoder"@, "will stream via "@ + backend::label_of(b)),
        ],
        backend_checks(Platform::Linux, true, None) == seq![
            diagnostics::failed(
                "Video encoder"@,
                "no working backend found"@,
                backend::no_encoder_text(Platform::Linux)
                    + "\nNone of VA-API, NVENC, or software encoding work on this machine with the currently installed ffmpeg. See the individual checks above for what to install."@,
            ),
        ],
        backend_checks(Platform::Windows, true, None) == seq![
            diagnostics::failed(
                "Video encoder"@,
                "no working backend found"@,
                backend::no_encoder_text(Platform::Windows)
                    + "\nNone of Quick Sync, NVENC, AMF, or software encoding work on this machine with the currently installed ffmpeg. See the individual checks above for what to install."@,
            ),
        ],
{
}

/// The lines on the configuration: the configured address counts before a detected one, with the port
/// behind it; where there is neither, why; and where there is no configuration, how to get one.
pub proof fn the_configuration_is_described(
    p: Platform,
    c: HostConfig,
    ip: Seq<char>,
    port: u16,
    found: Seq<char>,
    cause: Seq<char>,
    detected: Result<Seq<char>, Seq<char>>,
)
    ensures
        ip.len() > 0 ==> address_check(ip, port, detected) == diagnostics::passed(
            "Host address"@,
            ip + ":"@ + text::decimal(port as nat),
        ),
        ip.len() == 0 ==> address_check(ip, port, Ok(found)) == diagnostics::passed(
            "Host address"@,
            found + ":"@ + text::decimal(port as nat),
        ),
        ip.len() == 0 ==> address_check(ip, port, Err(cause)) == diagnostics::failed(
            "Host address"@,
            config::no_address_text(cause),
            ADDRESS_FIX@,
        ),
        config_checks(Platform::Linux, None, detected) == seq![
            diagnostics::failed(
                "Configuration"@,
                "could not be loaded"@,
                "Run ./install.sh to create host.toml, then re-run this check."@,
            ),
        ],
        config_checks(Platform::Windows, None, detected) == seq![
            diagnostics::failed(
                "Configuration"@,
                "could not be loaded"@,
                "Run install.ps1 to create host.toml, then re-run this check."@,
            ),
        ],
        ({
            let lines = config_checks(p, Some(c), detected);
            &&& lines.len() == 2
            &&& lines[1] == address_check(c.host.ip@, c.host.port, detected)
            &&& c.pairing.token@.len() > 0 && c.pairing.noise_public_key@.len() > 0 ==> lines[0]
                == diagnostics::passed("Pairing credentials"@, "token and host key present"@)
            &&& c.pairing.token@.len() == 0 || c.pairing.noise_public_key@.len() == 0 ==> lines[0]
                == diagnostics::failed(
                "Pairing credentials"@,
                "missing token or host key"@,
                match p {
                    Platform::Linux => LINUX_PAIRING_FIX@,
                    Platform::Windows => WINDOWS_PAIRING_FIX@,
                },
            )
        }),
{
}

/// A build of Windows is recent enough from 18362 on; one that is not known is neither that nor too
/// old. The line on it names it.
pub proof fn builds_are_recent_from_1903_on(b: u32)
    ensures
        b >= 18362 ==> build_class(Some(b)) == BuildCheck::Recent(b) && windows_version_check(Some(b))
            == diagnostics::passed(
            "Windows.Graphics.Capture"@,
            "build "@ + text::decimal(b as nat) + " >= 18362 (Win10 1903)"@,
        ),
        b < 18362 ==> build_class(Some(b)) == BuildCheck::TooOld(b) && windows_version_check(Some(b))
            == diagnostics::failed(
            "Windows.Graphics.Capture"@,
            "build "@ + text::decimal(b as nat)
                + " is older than 18362 (Windows 10 version 1903)"@,
            OLD_BUILD_FIX@,
        ),
        build_class(None) == BuildCheck::Unknown,
        windows_version_check(None) == diagnostics::warned(
            "Windows.Graphics.Capture"@,
            "could not determine the Windows build number"@,
            UNKNOWN_BUILD_FIX@,
        ),
        task_check(true) == diagnostics::passed(
            "Logon Scheduled Task"@,
            "registered (runs palmtopd at logon)"@,
        ),
        task_check(false) == diagnostics::warned("Logon Scheduled Task"@, "not found"@, TASK_FIX@),
{
}

/// What is known is seen as it is.
pub proof fn facts_are_seen_as_they_are(s: String, e: String, b: EncodeBackend, c: &HostConfig)
    ensures
        opt(Some(s)) == Some(s@),
        opt(None) is None,
        outcome(Ok(s)) == Ok::<Seq<char>, Seq<char>>(s@),
        outcome(Err(e)) == Err::<Seq<char>, Seq<char>>(e@),
        opt_backend(Some(b)) == Some(b@),
        opt_backend(None) is None,
        opt_config(Some(c)) == Some(*c),
        opt_config(None) is None,
{
}

/// The lines of a report come in a fixed order: on Linux the session, the portal, PipeWire, ffmpeg,
/// the render nodes, the other encoders, the configuration, and the encoder in use.
pub proof fn the_lines_of_a_linux_report_are_in_order(f: LinuxFacts, cfg: Option<HostConfig>)
    ensures
        ({
            let r = linux_report(f, cfg);
            let node = match cfg {
                Some(c) => c.gpu.vaapi_render_node@,
                None => Seq::empty(),
            };
            let vaapi = vaapi_checks(node, text::views(f.nodes@), f.node_works@);
            let config = config_checks(Platform::Linux, cfg, outcome(f.detected_ip));
            let backend = backend_checks(Platform::Linux, cfg is Some, opt_backend(f.backend));
            let k = 6 + vaapi.len() as int;
            &&& r.len() == k + 2 + config.len() + backend.len()
            &&& r.take(3) == session_checks(
                opt(f.wayland_display),
                opt(f.runtime_dir),
                opt(f.bus_address),
            )
            &&& r[3] == portal_check(f.portal)
            &&& r[4] == pipewire_check(opt(f.pipewire_socket))
            &&& r[5] == ffmpeg_check(Platform::Linux, opt(f.ffmpeg))
            &&& r.subrange(6, k) == vaapi
            &&& r[k] == nvenc_check(Platform::Linux, f.nvenc)
            &&& r[k + 1] == software_check(Platform::Linux, f.software)
            &&& r.subrange(k + 2, k + 2 + config.len()) == config
            &&& r.skip(k + 2 + config.len()) == backend
        }),
{
}

/// On Windows they are the version, ffmpeg, the encoders, the configuration, the encoder in use, and
/// the task.
pub proof fn the_lines_of_a_windows_report_are_in_order(f: WindowsFacts, cfg: Option<HostConfig>)
    ensures
        ({
            let r = windows_report(f, cfg);
            let config = config_checks(Platform::Windows, cfg, outcome(f.detected_ip));
            let backend = backend_checks(Platform::Windows, cfg is Some, opt_backend(f.backend));
            let n = r.len() as int;
            &&& n == 7 + config.len() + backend.len()
            &&& r[0] == windows_version_check(f.build)
            &&& r[1] == ffmpeg_check(Platform::Windows, opt(f.ffmpeg))
            &&& r[2] == qsv_check(f.qsv)
            &&& r[3] == nvenc_check(Platform::Windows, f.nvenc)
            &&& r[4] == amf_check(f.amf)
            &&& r[5] == software_check(Platform::Windows, f.software)
            &&& r.subrange(6, n - 1) == config + backend
            &&& r[n - 1] == task_check(f.task)
        }),
{
}

/// The verdict on a Linux machine is that nothing is missing.
pub proof fn a_linux_machine_is_judged_by_what_is_missing(
    f: LinuxFacts,
    cfg: Option<&HostConfig>,
    res: Diagnosis,
)
    requires
        call_ensures(run_linux, (f, cfg), res),
    ensures
        res.healthy <==> {
            &&& is_set(f.wayland_display)
            &&& is_set(f.runtime_dir)
            &&& is_set(f.bus_address)
            &&& f.portal !is Unavailable
            &&& f.pipewire_socket is Some
            &&& f.ffmpeg is Some
            &&& is_usable(opt_config(cfg), f.detected_ip)
            &&& f.backend is Some
        },
        res.report@ == diagnostics::rendered(linux_report(f, opt_config(cfg))),
{
    a_linux_machine_is_healthy_where_nothing_is_missing(f, opt_config(cfg));
}

/// The verdict on a Windows machine is that nothing is missing.
pub proof fn a_windows_machine_is_judged_by_what_is_missing(
    f: WindowsFacts,
    cfg: Option<&HostConfig>,
    res: Diagnosis,
)
    requires
        call_ensures(run_windows, (f, cfg), res),
    ensures
        res.healthy <==> {
            &&& f.build matches Some(b) ==> b >= 18362
            &&& f.ffmpeg is Some
            &&& is_usable(opt_config(cfg), f.detected_ip)
            &&& f.backend is Some
        },
        res.report@ == diagnostics::rendered(windows_report(f, opt_config(cfg))),
{
    a_windows_machine_is_healthy_where_nothing_is_missing(f, opt_config(cfg));
}

} // verus!
