use vstd::prelude::*;

use crate::asyncwidget::AsyncWidget;
use crate::fail::{WError, WResult};
use crate::files::{File, FileKind, Mime};
use crate::process::{KillOrder, ProcRegistry};
use crate::strutil::{decode_output, spec_all_lines_valid, spec_decoded_lines, str_eq};
use crate::token::{CancelToken, Generation};

verus! {

/// The kind of media stream a media preview plays.
#[derive(Debug, Clone, Copy, PartialEq, Eq, Structural)]
pub enum MediaKind {
    Video,
    Audio,
}

/// The preview variant that is live inside the previewer's container.
/// Exactly one variant is live at a time.
#[derive(Debug)]
pub enum PreviewTarget {
    /// A listing of the previewed directory's entry names.
    DirectoryListing(Vec<String>),
    /// Text lines, possibly only the prefix that fits the viewport.
    TextDocument { lines: Vec<String>, partial: bool },
    /// A decoded still image, by path.
    StillImage { path: String },
    /// An audio or video stream, by path.
    MediaStream { path: String, media: MediaKind },
    /// The text lines an external previewer produced.
    ExternalRendered { lines: Vec<String> },
}

impl PreviewTarget {
    /// The blank text view shown before anything is selected and after a
    /// failed preview.
    pub open spec fn spec_is_blank_text(self) -> bool {
        match self {
            PreviewTarget::TextDocument { lines, partial } => lines@.len() == 0 && !partial,
            _ => false,
        }
    }
}

/// A fully built blank text view, the fallback for every soft failure.
pub fn blank_text() -> (t: PreviewTarget)
    ensures
        t.spec_is_blank_text(),
{
    PreviewTarget::TextDocument { lines: Vec::new(), partial: false }
}

/// The producer's soft-failure policy: a finished build passes through,
/// a stale abandonment stays an error (it must never surface), and any
/// real failure degrades to the blank text view instead of crashing the
/// pipeline.
pub fn fallback_to_blank(r: WResult<PreviewTarget>) -> (out: WResult<PreviewTarget>)
    ensures
        r is Ok ==> out == r,
        r matches Err(e) ==> (e.spec_is_stale_kind() ==> out == r),
        r matches Err(e) ==> (!e.spec_is_stale_kind() ==> (out matches Ok(t)
            && t.spec_is_blank_text())),
{
    match r {
        Ok(t) => Ok(t),
        Err(e) => {
            if e.is_stale_kind() {
                Err(e)
            } else {
                Ok(blank_text())
            }
        }
    }
}

/// How the producer should build the preview for a file, decided from its
/// kind, its MIME type and whether a media backend is available.
#[derive(Debug, Clone, Copy, PartialEq, Eq, Structural)]
pub enum PreviewDecision {
    /// Build a directory listing.
    Directory,
    /// Play the file through the media backend.
    Media(MediaKind),
    /// Decode a still image.
    Image,
    /// Read the file as plain text, bounded by the viewport.
    Text,
    /// Try an external previewer.
    External,
    /// Show the blank fallback right away.
    Blank,
}

/// The dispatch table of the producer, over the MIME type's views.
/// `video`, and `gif` with a media backend, stream as video; `image` and
/// `audio` need the media backend; `text/plain` reads as text; anything
/// else goes to the external previewers.
pub open spec fn spec_decide_mime(top: Seq<char>, sub: Seq<char>, media: bool) -> PreviewDecision {
    if top == "video"@ || (sub == "gif"@ && media) {
        PreviewDecision::Media(MediaKind::Video)
    } else if top == "image"@ && media {
        PreviewDecision::Image
    } else if top == "audio"@ && media {
        PreviewDecision::Media(MediaKind::Audio)
    } else if top == "text"@ && sub == "plain"@ {
        PreviewDecision::Text
    } else {
        PreviewDecision::External
    }
}

/// The full decision: directories list, a file without a MIME type falls
/// back to the blank view, everything else goes by the MIME table.
pub open spec fn spec_decide(kind: FileKind, mime: Option<Mime>, media: bool) -> PreviewDecision {
    if kind is Directory {
        PreviewDecision::Directory
    } else {
        match mime {
            None => PreviewDecision::Blank,
            Some(m) => spec_decide_mime(m.top@, m.sub@, media),
        }
    }
}

/// Pick the preview variant for a file.  The MIME type is `None` when
/// MIME resolution failed; that degrades to the blank view, never to an
/// error.
pub fn decide_preview(file: &File, mime: &Option<Mime>, media_available: bool) -> (d:
    PreviewDecision)
    ensures
        d == spec_decide(file.kind, *mime, media_available),
{
    if file.kind == FileKind::Directory {
        return PreviewDecision::Directory;
    }
    match mime {
        None => PreviewDecision::Blank,
        Some(m) => {
            let is_video = str_eq(m.top.as_str(), "video");
            let is_gif = str_eq(m.sub.as_str(), "gif");
            if is_video || (is_gif && media_available) {
                PreviewDecision::Media(MediaKind::Video)
            } else if str_eq(m.top.as_str(), "image") && media_available {
                PreviewDecision::Image
            } else if str_eq(m.top.as_str(), "audio") && media_available {
                PreviewDecision::Media(MediaKind::Audio)
            } else if str_eq(m.top.as_str(), "text") && str_eq(m.sub.as_str(), "plain") {
                PreviewDecision::Text
            } else {
                PreviewDecision::External
            }
        }
    }
}

/// Whether this decision's builder shows the ticking loading indicator
/// while it works.
pub fn needs_loading_ticker(d: &PreviewDecision) -> (r: bool)
    ensures
        r == (d is Image || d is Text || d is External),
{
    match d {
        PreviewDecision::Image => true,
        PreviewDecision::Text => true,
        PreviewDecision::External => true,
        _ => false,
    }
}

/// The ticking "loading" indicator shown while a slow preview builds.
/// The runtime animates it on a timer; the library only tracks whether it
/// is running.
#[derive(Debug)]
pub struct Ticker {
    ticking: bool,
}

impl Ticker {
    pub closed spec fn spec_ticking(&self) -> bool {
        self.ticking
    }

    pub fn start_ticking() -> (t: Ticker)
        ensures
            t.spec_ticking(),
    {
        Ticker { ticking: true }
    }

    pub fn stop_ticking(&mut self)
        ensures
            !final(self).spec_ticking(),
    {
        self.ticking = false;
    }

    pub fn is_ticking(&self) -> (r: bool)
        ensures
            r == self.spec_ticking(),
    {
        self.ticking
    }
}

/// A resolved external previewer: a program that either emits text lines,
/// or emits the path of an image it rendered.
#[derive(Debug)]
pub enum ExtPreviewer {
    Text(String),
    Graphics(String),
}

/// The spec-level value of a resolved previewer.
pub enum ResolvedPreviewer {
    Text(Seq<char>),
    Graphics(Seq<char>),
}

impl View for ExtPreviewer {
    type V = ResolvedPreviewer;

    open spec fn view(&self) -> ResolvedPreviewer {
        match self {
            ExtPreviewer::Text(p) => ResolvedPreviewer::Text(p@),
            ExtPreviewer::Graphics(p) => ResolvedPreviewer::Graphics(p@),
        }
    }
}

/// Whether some entry of the previewers directory has exactly this name.
pub open spec fn spec_contains(entries: Seq<Seq<char>>, name: Seq<char>) -> bool {
    exists|i: int| 0 <= i < entries.len() && entries[i] == name
}

/// The name a graphics-producing previewer for this extension must have.
pub open spec fn spec_graphics_name(ext: Seq<char>) -> Seq<char> {
    ext + ".g"@
}

/// What resolution returns, as a function of the previewers directory's
/// entry names, the file's extension, the graphics-mode flag and whether
/// the file is detected as text-like.
pub open spec fn spec_resolve(
    entries: Seq<Seq<char>>,
    ext: Option<Seq<char>>,
    g_mode: bool,
    is_text: bool,
) -> Result<ResolvedPreviewer, WError> {
    match ext {
        Some(e) => {
            if g_mode && spec_contains(entries, spec_graphics_name(e)) {
                Ok(ResolvedPreviewer::Graphics(spec_graphics_name(e)))
            } else if spec_contains(entries, e) {
                Ok(ResolvedPreviewer::Text(e))
            } else if is_text {
                Ok(ResolvedPreviewer::Text("definitions/text"@))
            } else {
                Err(WError::NoPreviewerFound)
            }
        }
        None => {
            if is_text {
                Ok(ResolvedPreviewer::Text("definitions/text"@))
            } else {
                Err(WError::NoPreviewerFound)
            }
        }
    }
}

/// The extension's character sequence, if the file has one.
pub open spec fn spec_ext_view(ext: Option<String>) -> Option<Seq<char>> {
    match ext {
        Some(e) => Some(e@),
        None => None,
    }
}

/// Resolve the external previewer for a file.  In graphics mode a
/// previewer named `<ext>.g` wins; otherwise one named exactly `<ext>`;
/// otherwise a text-like file falls back to the built-in text previewer
/// definition.  `entries` are the names in the previewers directory, in
/// directory order.
pub fn find_previewer(file: &File, entries: &Vec<String>, g_mode: bool, is_text: bool) -> (r:
    WResult<ExtPreviewer>)
    ensures
        r matches Ok(p) ==> spec_resolve(
            entries.deep_view(),
            spec_ext_view(file.ext),
            g_mode,
            is_text,
        ) == Ok::<ResolvedPreviewer, WError>(p@),
        r matches Err(e) ==> spec_resolve(
            entries.deep_view(),
            spec_ext_view(file.ext),
            g_mode,
            is_text,
        ) == Err::<ResolvedPreviewer, WError>(e),
{
    let ext: &String = match &file.ext {
        Some(e) => e,
        None => {
            if is_text {
                return Ok(ExtPreviewer::Text("definitions/text".to_owned()));
            } else {
                return Err(WError::NoPreviewerFound);
            }
        }
    };
    proof {
        assert(spec_ext_view(file.ext) == Some(ext@));
    }
    if g_mode {
        let gname: String = ext.clone().concat(".g");
        let mut i: usize = 0;
        while i < entries.len()
            invariant
                0 <= i <= entries.len(),
                g_mode,
                spec_ext_view(file.ext) == Some(ext@),
                gname@ == spec_graphics_name(ext@),
                forall|j: int| 0 <= j < i ==> entries.deep_view()[j] != gname@,
            decreases entries.len() - i,
        {
            assert(entries.deep_view()[i as int] == entries@[i as int]@);
            if str_eq(entries[i].as_str(), gname.as_str()) {
                proof {
                    assert(entries.deep_view()[i as int] == spec_graphics_name(ext@));
                    assert(spec_contains(entries.deep_view(), spec_graphics_name(ext@)));
                }
                return Ok(ExtPreviewer::Graphics(gname));
            }
            i = i + 1;
        }
        assert(!spec_contains(entries.deep_view(), spec_graphics_name(ext@)));
    }
    let mut i: usize = 0;
    while i < entries.len()
        invariant
            0 <= i <= entries.len(),
            spec_ext_view(file.ext) == Some(ext@),
            forall|j: int| 0 <= j < i ==> entries.deep_view()[j] != ext@,
            g_mode ==> !spec_contains(entries.deep_view(), spec_graphics_name(ext@)),
        decreases entries.len() - i,
    {
        assert(entries.deep_view()[i as int] == entries@[i as int]@);
        if str_eq(entries[i].as_str(), ext.as_str()) {
            proof {
                assert(entries.deep_view()[i as int] == ext@);
                assert(spec_contains(entries.deep_view(), ext@));
            }
            return Ok(ExtPreviewer::Text(ext.clone()));
        }
        i = i + 1;
    }
    assert(!spec_contains(entries.deep_view(), ext@));
    if is_text {
        Ok(ExtPreviewer::Text("definitions/text".to_owned()))
    } else {
        Err(WError::NoPreviewerFound)
    }
}

/// Law: external previewer resolution is deterministic.  The resolved
/// previewer is a function of the previewers directory's entries, the
/// file's extension, the graphics-mode flag and text detection alone: two
/// resolutions from the same inputs agree.
pub proof fn lemma_resolution_deterministic(
    r1: Result<ResolvedPreviewer, WError>,
    r2: Result<ResolvedPreviewer, WError>,
    entries: Seq<Seq<char>>,
    ext: Option<Seq<char>>,
    g_mode: bool,
    is_text: bool,
)
    requires
        r1 == spec_resolve(entries, ext, g_mode, is_text),
        r2 == spec_resolve(entries, ext, g_mode, is_text),
    ensures
        r1 == r2,
{
}

/// Whether the configured graphics protocol allows graphics-producing
/// previewers; the plain `unicode` protocol does not.
pub fn graphics_mode_allowed(graphics: &str) -> (r: bool)
    ensures
        r == (graphics@ != "unicode"@),
{
    !str_eq(graphics, "unicode")
}

/// What `set_file` asks of the runtime: either nothing (idempotent
/// re-selection), or spawning the producer of a new generation, after
/// carrying out the kill order for the previous external previewer, if
/// one was running, and clearing the temporary preview artifacts.
#[derive(Debug)]
pub enum SetFileOutcome {
    Unchanged,
    Spawn { token: Generation, kill: Option<KillOrder>, same_dir: bool },
}

/// The previewer: owns the async container holding the live preview
/// variant, the file it currently previews, and the animation flag that
/// keeps the reveal animation fluid across same-directory navigation.
#[derive(Debug)]
pub struct Previewer {
    widget: AsyncWidget<PreviewTarget>,
    file: Option<File>,
    animator: CancelToken,
}

impl Previewer {
    pub closed spec fn spec_file(&self) -> Option<File> {
        self.file
    }

    pub closed spec fn spec_gen(&self) -> u64 {
        self.widget.spec_gen()
    }

    pub closed spec fn spec_is_stale(&self) -> bool {
        self.widget.spec_is_stale()
    }

    pub closed spec fn spec_value(&self) -> Option<PreviewTarget> {
        self.widget.spec_value()
    }

    pub closed spec fn spec_failed(&self) -> bool {
        self.widget.spec_failed()
    }

    pub open spec fn spec_token_stale(&self, g: Generation) -> bool {
        g.spec_gen() != self.spec_gen() || self.spec_is_stale()
    }

    pub closed spec fn spec_animator_stale(&self) -> bool {
        self.animator.spec_is_stale()
    }

    /// A previewer showing the blank initial view.
    pub fn new() -> (p: Previewer)
        ensures
            p.spec_file() is None,
            p.spec_gen() == 0,
            !p.spec_is_stale(),
            !p.spec_animator_stale(),
            p.spec_value() matches Some(t) && t.spec_is_blank_text(),
            !p.spec_failed(),
    {
        let mut widget = AsyncWidget::<PreviewTarget>::new();
        widget.store_value(blank_text());
        Previewer { widget, file: None, animator: CancelToken::new() }
    }

    /// The file whose preview is current, if any.
    pub fn get_file(&self) -> (r: Option<&File>)
        ensures
            r is Some <==> self.spec_file() is Some,
            r matches Some(f) ==> self.spec_file() == Some(*f),
    {
        self.file.as_ref()
    }

    /// Cancel the data generation and the animation together.
    pub fn set_stale(&mut self)
        ensures
            final(self).spec_is_stale(),
            final(self).spec_animator_stale(),
            final(self).spec_gen() == old(self).spec_gen(),
            final(self).spec_value() == old(self).spec_value(),
            final(self).spec_failed() == old(self).spec_failed(),
            final(self).spec_file() == old(self).spec_file(),
    {
        self.animator.set_stale();
        self.widget.set_stale();
    }

    /// Cancel only the reveal animation.
    pub fn cancel_animation(&mut self)
        ensures
            final(self).spec_animator_stale(),
            final(self).spec_is_stale() == old(self).spec_is_stale(),
            final(self).spec_gen() == old(self).spec_gen(),
            final(self).spec_value() == old(self).spec_value(),
            final(self).spec_failed() == old(self).spec_failed(),
            final(self).spec_file() == old(self).spec_file(),
    {
        self.animator.set_stale();
    }

    /// Whether the reveal animation has been cancelled.
    pub fn animation_stale(&self) -> (r: bool)
        ensures
            r == self.spec_animator_stale(),
    {
        self.animator.is_stale()
    }

    /// The number of the current generation.
    pub fn generation(&self) -> (g: u64)
        ensures
            g == self.spec_gen(),
    {
        self.widget.generation()
    }

    /// Whether the current generation has been cancelled.
    pub fn is_stale(&self) -> (r: bool)
        ensures
            r == self.spec_is_stale(),
    {
        self.widget.is_stale()
    }

    /// Whether work holding the given ticket should abandon itself.
    pub fn check_stale(&self, g: &Generation) -> (r: bool)
        ensures
            r == self.spec_token_stale(*g),
    {
        self.widget.token_is_stale(g)
    }

    /// The live preview variant, or `NotReady` while none is.
    pub fn widget(&self) -> (r: WResult<&PreviewTarget>)
        ensures
            r is Ok <==> self.spec_value() is Some,
            r matches Ok(t) ==> self.spec_value() == Some(*t),
            r matches Err(e) ==> e == WError::NotReady,
    {
        self.widget.widget()
    }

    /// Whether a finished preview is visible.
    pub fn ready(&self) -> (r: bool)
        ensures
            r == (self.spec_value() is Some),
    {
        self.widget.ready()
    }

    /// What `deliver` leaves of the previewer: only the container's slot
    /// can change, and only under a fresh ticket.
    pub closed spec fn spec_deliver(self, g: Generation, result: WResult<PreviewTarget>) -> Previewer {
        Previewer { widget: self.widget.spec_deliver(g, result), ..self }
    }

    /// The previewer after a whole batch of completions has arrived, in
    /// the given order.
    pub open spec fn spec_deliver_all(
        self,
        events: Seq<(Generation, WResult<PreviewTarget>)>,
    ) -> Previewer
        decreases events.len(),
    {
        if events.len() == 0 {
            self
        } else {
            self.spec_deliver(events[0].0, events[0].1).spec_deliver_all(events.drop_first())
        }
    }

    /// Law (no stale overwrite): after the last `set_file`, the visible
    /// preview is the one built for that selection, however the
    /// completions of the superseded generations are interleaved with it.
    /// `self` is the previewer as the last `set_file` left it; `events`
    /// are all the completions that ever arrive, of which exactly one —
    /// a successful one — carries the current generation's ticket.
    pub proof fn lemma_last_set_file_wins(
        self,
        events: Seq<(Generation, WResult<PreviewTarget>)>,
        i: int,
    )
        requires
            !self.spec_is_stale(),
            0 <= i < events.len(),
            events[i].0.spec_gen() == self.spec_gen(),
            events[i].1 is Ok,
            forall|j: int|
                0 <= j < events.len() && j != i ==> #[trigger] events[j].0.spec_gen()
                    != self.spec_gen(),
        ensures
            self.spec_deliver_all(events).spec_value() == Some(events[i].1.unwrap()),
            self.spec_deliver_all(events).spec_file() == self.spec_file(),
    {
        self.lemma_deliver_all_mirrors(events);
        self.widget.lemma_latest_generation_wins(events, i);
    }

    /// Delivering a batch touches only the container, and mirrors the
    /// container's own batch delivery.
    proof fn lemma_deliver_all_mirrors(
        self,
        events: Seq<(Generation, WResult<PreviewTarget>)>,
    )
        ensures
            self.spec_deliver_all(events).widget == self.widget.spec_deliver_all(events),
            self.spec_deliver_all(events).file == self.file,
            self.spec_deliver_all(events).animator == self.animator,
        decreases events.len(),
    {
        if events.len() > 0 {
            self.spec_deliver(events[0].0, events[0].1).lemma_deliver_all_mirrors(
                events.drop_first(),
            );
        }
    }

    /// A producer's completion arrives; kept only if its ticket still
    /// names the current, fresh generation.
    pub fn deliver(&mut self, g: &Generation, result: WResult<PreviewTarget>) -> (notified: bool)
        ensures
            *final(self) == old(self).spec_deliver(*g, result),
            notified == !old(self).spec_token_stale(*g),
            final(self).spec_gen() == old(self).spec_gen(),
            final(self).spec_is_stale() == old(self).spec_is_stale(),
            final(self).spec_file() == old(self).spec_file(),
            final(self).spec_animator_stale() == old(self).spec_animator_stale(),
            !notified ==> final(self).spec_value() == old(self).spec_value()
                && final(self).spec_failed() == old(self).spec_failed(),
            notified ==> (result matches Ok(t) ==> final(self).spec_value() == Some(t)
                && !final(self).spec_failed()),
            notified ==> (result matches Err(_) ==> final(self).spec_value() is None
                && final(self).spec_failed()),
    {
        self.widget.deliver(g, result)
    }

    /// Select a file.  Re-selecting the file already previewed while its
    /// generation is fresh is a no-op.  Anything else cancels the in-flight
    /// generation, orders the previous external previewer killed, re-arms
    /// the animation for a same-directory move (and cancels it for a
    /// cross-directory one), and opens the generation whose producer the
    /// runtime must now spawn.
    pub fn set_file(&mut self, reg: &mut ProcRegistry, file: &File) -> (o: SetFileOutcome)
        requires
            old(self).spec_gen() < u64::MAX,
        ensures
            (o is Unchanged) == (old(self).spec_file() matches Some(f) && f.spec_same(*file)
                && !old(self).spec_is_stale()),
            o is Unchanged ==> *final(self) == *old(self) && *final(reg) == *old(reg),
            o matches SetFileOutcome::Spawn { token, kill, same_dir } ==> {
                &&& same_dir == (old(self).spec_file() matches Some(f) ==> f.spec_same_dir(*file))
                &&& (kill, *final(reg)) == old(reg).spec_kill()
                &&& final(self).spec_file() == Some(*file)
                &&& final(self).spec_gen() == old(self).spec_gen() + 1
                &&& !final(self).spec_is_stale()
                &&& final(self).spec_value() is None
                &&& !final(self).spec_failed()
                &&& token.spec_gen() == final(self).spec_gen()
                &&& final(self).spec_animator_stale() == !same_dir
            },
    {
        let unchanged = match &self.file {
            Some(f) => f.same_as(file) && !self.widget.is_stale(),
            None => false,
        };
        if unchanged {
            return SetFileOutcome::Unchanged;
        }
        self.widget.set_stale();
        let kill = reg.kill_proc();
        let same_dir = match &self.file {
            Some(f) => f.same_dir_as(file),
            None => true,
        };
        if same_dir {
            self.animator.set_fresh();
        } else {
            self.animator.set_stale();
        }
        self.file = Some(file.clone());
        let token = self.widget.change_to();
        SetFileOutcome::Spawn { token, kill, same_dir }
    }

    /// Re-issue `set_file` for the current file, forcing recomputation.
    pub fn reload(&mut self, reg: &mut ProcRegistry) -> (o: SetFileOutcome)
        requires
            old(self).spec_gen() < u64::MAX,
        ensures
            old(self).spec_file() is None ==> o is Unchanged && *final(self) == *old(self)
                && *final(reg) == *old(reg),
            old(self).spec_file() matches Some(f) ==> o matches SetFileOutcome::Spawn {
                token,
                kill,
                same_dir,
            } && {
                &&& same_dir
                &&& (kill, *final(reg)) == old(reg).spec_kill()
                &&& final(self).spec_file() == Some(f)
                &&& final(self).spec_gen() == old(self).spec_gen() + 1
                &&& !final(self).spec_is_stale()
                &&& final(self).spec_value() is None
                &&& token.spec_gen() == final(self).spec_gen()
                &&& !final(self).spec_animator_stale()
            },
    {
        match self.file.take() {
            Some(f) => self.set_file(reg, &f),
            None => SetFileOutcome::Unchanged,
        }
    }

    /// Hand out the entries of the live directory listing, leaving an
    /// empty listing behind; fails when the live preview is not a listing.
    pub fn take_files(&mut self) -> (r: WResult<Vec<String>>)
        ensures
            (r is Ok) == (old(self).spec_value() matches Some(t) && t is DirectoryListing),
            r matches Ok(v) ==> old(self).spec_value() == Some(
                PreviewTarget::DirectoryListing(v),
            ),
            r is Ok ==> (final(self).spec_value() matches Some(t) && t matches
                PreviewTarget::DirectoryListing(v) && v@.len() == 0),
            r matches Err(e) ==> e == WError::WidgetNoFilesError && *final(self) == *old(self),
            final(self).spec_gen() == old(self).spec_gen(),
            final(self).spec_is_stale() == old(self).spec_is_stale(),
            final(self).spec_file() == old(self).spec_file(),
    {
        let is_listing = match self.widget.widget() {
            Ok(PreviewTarget::DirectoryListing(_)) => true,
            _ => false,
        };
        if !is_listing {
            return Err(WError::WidgetNoFilesError);
        }
        match self.widget.take_value() {
            Some(PreviewTarget::DirectoryListing(entries)) => {
                self.widget.store_value(PreviewTarget::DirectoryListing(Vec::new()));
                Ok(entries)
            }
            _ => {
                proof {
                    assert(false);
                }
                Err(WError::WidgetNoFilesError)
            }
        }
    }

    /// Show a directory listing that was already built elsewhere, for the
    /// given directory, as the finished preview of a new generation.
    pub fn put_preview_files(&mut self, dir: &File, entries: Vec<String>)
        requires
            old(self).spec_gen() < u64::MAX,
        ensures
            final(self).spec_file() == Some(*dir),
            final(self).spec_gen() == old(self).spec_gen() + 1,
            !final(self).spec_is_stale(),
            final(self).spec_value() == Some(PreviewTarget::DirectoryListing(entries)),
            !final(self).spec_failed(),
    {
        self.file = Some(dir.clone());
        let _token = self.widget.change_to();
        self.widget.store_value(PreviewTarget::DirectoryListing(entries));
    }

    /// Replace a bounded text preview's lines with the file's full
    /// contents; does nothing when the live preview is not text.
    pub fn reload_text(&mut self, full_lines: Vec<String>)
        ensures
            old(self).spec_value() matches Some(t) && t is TextDocument
                ==> final(self).spec_value() == Some(
                    PreviewTarget::TextDocument { lines: full_lines, partial: false },
                ),
            !(old(self).spec_value() matches Some(t) && t is TextDocument) ==> *final(self)
                == *old(self),
            final(self).spec_gen() == old(self).spec_gen(),
            final(self).spec_is_stale() == old(self).spec_is_stale(),
            final(self).spec_file() == old(self).spec_file(),
    {
        let is_text = match self.widget.widget() {
            Ok(PreviewTarget::TextDocument { .. }) => true,
            _ => false,
        };
        if is_text {
            self.widget.store_value(
                PreviewTarget::TextDocument { lines: full_lines, partial: false },
            );
        }
    }

    /// Build the directory-listing preview from the entries the listing
    /// service returned, unless this generation is already superseded.
    pub fn preview_dir(file: &File, entries: Vec<String>, p: &Previewer, g: &Generation) -> (r:
        WResult<PreviewTarget>)
        ensures
            p.spec_token_stale(*g) ==> (r matches Err(e) && e matches WError::PreviewFailed {
                file: n,
            } && n@ == file.name@),
            !p.spec_token_stale(*g) ==> r == Ok::<PreviewTarget, WError>(
                PreviewTarget::DirectoryListing(entries),
            ),
    {
        if p.check_stale(g) {
            return Err(WError::PreviewFailed { file: file.name.clone() });
        }
        Ok(PreviewTarget::DirectoryListing(entries))
    }

    /// Build the text preview from the lines read so far, keeping no more
    /// than fit the viewport and marking the document partial when the
    /// file has more.
    pub fn preview_text(
        file: &File,
        lines: Vec<String>,
        viewport_lines: usize,
        p: &Previewer,
        g: &Generation,
    ) -> (r: WResult<PreviewTarget>)
        ensures
            p.spec_token_stale(*g) ==> (r matches Err(e) && e matches WError::PreviewFailed {
                file: n,
            } && n@ == file.name@),
            !p.spec_token_stale(*g) ==> (r matches Ok(t) && t matches PreviewTarget::TextDocument {
                lines: l,
                partial,
            } && l@ == lines@.take(if lines@.len() <= viewport_lines {
                lines@.len() as int
            } else {
                viewport_lines as int
            }) && partial == (lines@.len() > viewport_lines)),
    {
        if p.check_stale(g) {
            return Err(WError::PreviewFailed { file: file.name.clone() });
        }
        let mut kept = lines;
        let partial = kept.len() > viewport_lines;
        if partial {
            kept.truncate(viewport_lines);
        }
        proof {
            if !partial {
                assert(kept@ == kept@.take(kept@.len() as int));
            }
        }
        Ok(PreviewTarget::TextDocument { lines: kept, partial })
    }

    /// The external previewer process was spawned in its own process
    /// group: record it, then abandon the run if the generation is
    /// already superseded (the recorded group is killed by the next
    /// transition either way).
    pub fn run_external_spawned(
        reg: &mut ProcRegistry,
        file: &File,
        p: &Previewer,
        g: &Generation,
        pid: u32,
    ) -> (r: WResult<()>)
        ensures
            final(reg).spec_pid() == Some(pid),
            p.spec_token_stale(*g) ==> (r matches Err(e) && e matches WError::PreviewFailed {
                file: n,
            } && n@ == file.name@),
            !p.spec_token_stale(*g) ==> r is Ok,
    {
        reg.record(pid);
        if p.check_stale(g) {
            return Err(WError::PreviewFailed { file: file.name.clone() });
        }
        Ok(())
    }

    /// The external previewer process exited and its captured output is
    /// in hand: abandon the run if the generation is superseded (leaving
    /// the recorded group for the next transition's kill), else clear the
    /// registry and decode the output into lines.
    pub fn run_external_finished(
        reg: &mut ProcRegistry,
        file: &File,
        p: &Previewer,
        g: &Generation,
        output: &Vec<u8>,
    ) -> (r: WResult<Vec<String>>)
        ensures
            p.spec_token_stale(*g) ==> (r matches Err(e) && e matches WError::PreviewFailed {
                file: n,
            } && n@ == file.name@ && *final(reg) == *old(reg)),
            !p.spec_token_stale(*g) ==> {
                &&& final(reg).spec_pid() is None
                &&& (r is Ok <==> spec_all_lines_valid(output@))
                &&& (r matches Ok(lines) ==> lines.deep_view() == spec_decoded_lines(output@))
                &&& (r matches Err(e) ==> e == WError::SubprocessOutputNotUtf8)
            },
    {
        if p.check_stale(g) {
            return Err(WError::PreviewFailed { file: file.name.clone() });
        }
        reg.clear();
        decode_output(output)
    }

    /// Shape an external previewer's lines into the preview variant its
    /// protocol calls for: text lines stand as they are; a
    /// graphics-producing previewer's first output line is the path of
    /// the image it rendered.
    pub fn finish_external(previewer: &ExtPreviewer, lines: Vec<String>) -> (r: WResult<
        PreviewTarget,
    >)
        ensures
            previewer is Text ==> r == Ok::<PreviewTarget, WError>(
                PreviewTarget::ExternalRendered { lines },
            ),
            previewer is Graphics && lines@.len() > 0 ==> (r matches Ok(t) && t matches
                PreviewTarget::StillImage { path } && path == lines@[0]),
            previewer is Graphics && lines@.len() == 0 ==> (r matches Err(e) && e
                == WError::NoneError),
    {
        match previewer {
            ExtPreviewer::Text(_) => Ok(PreviewTarget::ExternalRendered { lines }),
            ExtPreviewer::Graphics(_) => {
                let mut lines = lines;
                if lines.len() > 0 {
                    let first = lines.remove(0);
                    Ok(PreviewTarget::StillImage { path: first })
                } else {
                    Err(WError::NoneError)
                }
            }
        }
    }
}

} // verus!
