//! The list of windows: each is asked about, question by question, until it is
//! known whether and how it is listed.

use crate::ewmh::{class_in, opt_words, Ewmh, Query, WindowInfo};
#[allow(unused_imports)]
use crate::property::{law_answers_hold_words, words_in, PropertyReply, PropertyRequest};
use crate::text::lossy_text;
use vstd::prelude::*;

verus! {

/// What is asked next about a window.
#[derive(Debug, Clone, Copy, PartialEq, Eq, Structural)]
pub enum Stage {
    State,
    Type,
    Desktop,
    NetName,
    WmName,
    Class,
    Icon,
}

/// What is known so far about a window.
#[derive(Debug)]
pub struct WindowProbe {
    pub id: u32,
    pub stage: Stage,
    pub desktop: u32,
    pub title: String,
    pub class: String,
}

/// What is known so far about a window, as values.
#[verifier::ext_equal]
pub struct ProbeView {
    pub id: u32,
    pub stage: Stage,
    pub desktop: u32,
    pub title: Seq<char>,
    pub class: Seq<char>,
}

impl View for WindowProbe {
    type V = ProbeView;

    open spec fn view(&self) -> ProbeView {
        ProbeView {
            id: self.id,
            stage: self.stage,
            desktop: self.desktop,
            title: self.title@,
            class: self.class@,
        }
    }
}

/// A window as values.
#[verifier::ext_equal]
pub struct WindowView {
    pub id: u32,
    pub desktop: u32,
    pub title: Seq<char>,
    pub class: Seq<char>,
    pub icon: Option<Seq<u32>>,
}

impl View for WindowInfo {
    type V = WindowView;

    open spec fn view(&self) -> WindowView {
        WindowView {
            id: self.id,
            desktop: self.desktop,
            title: self.title@,
            class: self.class@,
            icon: opt_words(self.icon),
        }
    }
}

/// Where an answer about a window leads.
#[derive(Debug)]
pub enum Probed {
    /// Ask on.
    Next(WindowProbe),
    /// The window is not for the list.
    Skip,
    Listed(WindowInfo),
    /// The question failed, and with it the whole list.
    Failed,
}

/// Where an answer about a window leads, as values.
pub enum ProbedView {
    Next(ProbeView),
    Skip,
    Listed(WindowView),
    Failed,
}

impl View for Probed {
    type V = ProbedView;

    open spec fn view(&self) -> ProbedView {
        match *self {
            Probed::Next(p) => ProbedView::Next(p@),
            Probed::Skip => ProbedView::Skip,
            Probed::Listed(w) => ProbedView::Listed(w@),
            Probed::Failed => ProbedView::Failed,
        }
    }
}

/// Nothing is known of the window `id` yet.
pub open spec fn unprobed(id: u32) -> ProbeView {
    ProbeView { id, stage: Stage::State, desktop: 0, title: Seq::empty(), class: Seq::empty() }
}

impl ProbeView {
    /// What is asked next.
    pub open spec fn query(self) -> Query {
        match self.stage {
            Stage::State => Query::WindowState { window: self.id },
            Stage::Type => Query::WindowType { window: self.id },
            Stage::Desktop => Query::WindowDesktop { window: self.id },
            Stage::NetName => Query::NetName { window: self.id },
            Stage::WmName => Query::WmName { window: self.id },
            Stage::Class => Query::Class { window: self.id },
            Stage::Icon => Query::Icon { window: self.id },
        }
    }
}

impl Ewmh {
    /// Where the answer to the next question leads; `None` stands for a
    /// question that failed. Windows that keep out of the taskbar are skipped,
    /// and so are those whose type is not a normal one and those without a
    /// title and a class.
    pub open spec fn probed(self, p: ProbeView, reply: Option<PropertyReply>) -> ProbedView {
        match p.stage {
            Stage::State => match reply {
                None => ProbedView::Failed,
                Some(r) => if r.words(self.order).contains(self.atoms.net_wm_state_skip_taskbar) {
                    ProbedView::Skip
                } else {
                    ProbedView::Next(ProbeView { stage: Stage::Type, ..p })
                },
            },
            Stage::Type => match reply {
                None => ProbedView::Failed,
                Some(r) => if self.normal_in(r) {
                    ProbedView::Next(ProbeView { stage: Stage::Desktop, ..p })
                } else {
                    ProbedView::Skip
                },
            },
            Stage::Desktop => ProbedView::Next(
                ProbeView {
                    stage: Stage::NetName,
                    desktop: match reply {
                        Some(r) => self.desktop_in(r),
                        None => 0,
                    },
                    ..p
                },
            ),
            Stage::NetName => match reply {
                Some(r) if r.value_len > 0 => ProbedView::Next(
                    ProbeView { stage: Stage::Class, title: lossy_text(r.value@), ..p },
                ),
                Some(_) => ProbedView::Next(ProbeView { stage: Stage::WmName, ..p }),
                None => ProbedView::Next(
                    ProbeView { stage: Stage::Class, title: Seq::empty(), ..p },
                ),
            },
            Stage::WmName => ProbedView::Next(
                ProbeView {
                    stage: Stage::Class,
                    title: match reply {
                        Some(r) if r.value_len > 0 => lossy_text(r.value@),
                        _ => Seq::empty(),
                    },
                    ..p
                },
            ),
            Stage::Class => ProbedView::Next(
                ProbeView {
                    stage: Stage::Icon,
                    class: match reply {
                        Some(r) => class_in(r),
                        None => Seq::empty(),
                    },
                    ..p
                },
            ),
            Stage::Icon => if p.title.len() == 0 && p.class.len() == 0 {
                ProbedView::Skip
            } else {
                ProbedView::Listed(
                    WindowView {
                        id: p.id,
                        desktop: p.desktop,
                        title: p.title,
                        class: p.class,
                        icon: match reply {
                            Some(r) => self.icon_in(r),
                            None => None,
                        },
                    },
                )
            },
        }
    }

    /// Starts asking about a window.
    pub fn probe(id: u32) -> (r: WindowProbe)
        ensures
            r@ == unprobed(id),
    {
        WindowProbe {
            id,
            stage: Stage::State,
            desktop: 0,
            title: String::new(),
            class: String::new(),
        }
    }

    /// Takes in the answer to the next question about a window; `None` stands
    /// for a question that failed.
    pub fn take_answer(&self, p: WindowProbe, reply: Option<PropertyReply>) -> (r: Probed)
        requires
            reply matches Some(a) ==> a.wf(),
        ensures
            r@ == self.probed(p@, reply),
    {
        let mut p = p;
        match p.stage {
            Stage::State => match &reply {
                None => Probed::Failed,
                Some(r) => if self.has_state(r, self.atoms.net_wm_state_skip_taskbar) {
                    Probed::Skip
                } else {
                    p.stage = Stage::Type;
                    Probed::Next(p)
                },
            },
            Stage::Type => match &reply {
                None => Probed::Failed,
                Some(r) => if self.is_normal_or_unspecified(r) {
                    p.stage = Stage::Desktop;
                    Probed::Next(p)
                } else {
                    Probed::Skip
                },
            },
            Stage::Desktop => {
                p.desktop = match &reply {
                    Some(r) => self.window_desktop(r),
                    None => 0,
                };
                p.stage = Stage::NetName;
                Probed::Next(p)
            },
            Stage::NetName => {
                match &reply {
                    Some(r) => match self.window_title(r) {
                        Some(t) => {
                            p.title = t;
                            p.stage = Stage::Class;
                        },
                        None => p.stage = Stage::WmName,
                    },
                    None => {
                        p.title = String::new();
                        p.stage = Stage::Class;
                    },
                }
                Probed::Next(p)
            },
            Stage::WmName => {
                p.title = match &reply {
                    Some(r) => match self.window_title(r) {
                        Some(t) => t,
                        None => String::new(),
                    },
                    None => String::new(),
                };
                p.stage = Stage::Class;
                Probed::Next(p)
            },
            Stage::Class => {
                p.class = match &reply {
                    Some(r) => self.window_class(r),
                    None => String::new(),
                };
                p.stage = Stage::Icon;
                Probed::Next(p)
            },
            Stage::Icon => {
                if p.title.as_str().is_empty() && p.class.as_str().is_empty() {
                    return Probed::Skip;
                }
                let icon = match &reply {
                    Some(r) => self.window_icon(r),
                    None => None,
                };
                Probed::Listed(
                    WindowInfo {
                        id: p.id,
                        desktop: p.desktop,
                        title: p.title,
                        class: p.class,
                        icon,
                    },
                )
            },
        }
    }

    /// The question to ask next about a window.
    pub fn probe_request(&self, p: &WindowProbe) -> (r: PropertyRequest)
        ensures
            r == self.question(p@.query()),
    {
        let window = p.id;
        self.request(
            match p.stage {
                Stage::State => Query::WindowState { window },
                Stage::Type => Query::WindowType { window },
                Stage::Desktop => Query::WindowDesktop { window },
                Stage::NetName => Query::NetName { window },
                Stage::WmName => Query::WmName { window },
                Stage::Class => Query::Class { window },
                Stage::Icon => Query::Icon { window },
            },
        )
    }
}

/// The windows of a list, being asked about one after the other.
#[derive(Debug)]
pub struct WindowScan {
    pub ids: Vec<u32>,
    /// How many of `ids` are behind us.
    pub done: usize,
    /// The window being asked about; none at the end.
    pub probe: Option<WindowProbe>,
    pub found: Vec<WindowInfo>,
    /// A question failed that has to be answered.
    pub failed: bool,
}

/// A scan as values.
#[verifier::ext_equal]
pub struct ScanView {
    pub ids: Seq<u32>,
    pub done: int,
    pub probe: Option<ProbeView>,
    pub found: Seq<WindowView>,
    pub failed: bool,
}

/// The windows of a list as values.
pub open spec fn window_views(v: Seq<WindowInfo>) -> Seq<WindowView> {
    v.map_values(|w: WindowInfo| w@)
}

impl View for WindowScan {
    type V = ScanView;

    open spec fn view(&self) -> ScanView {
        ScanView {
            ids: self.ids@,
            done: self.done as int,
            probe: match self.probe {
                Some(p) => Some(p@),
                None => None,
            },
            found: window_views(self.found@),
            failed: self.failed,
        }
    }
}

/// The scan of `ids` with `done` windows behind it.
pub open spec fn scan_at(ids: Seq<u32>, done: int, found: Seq<WindowView>) -> ScanView {
    ScanView {
        ids,
        done,
        probe: if 0 <= done < ids.len() {
            Some(unprobed(ids[done]))
        } else {
            None
        },
        found,
        failed: false,
    }
}

impl ScanView {
    /// There is a window being asked about just while some are left and
    /// nothing failed.
    pub open spec fn wf(self) -> bool {
        &&& 0 <= self.done <= self.ids.len() <= usize::MAX
        &&& self.probe is Some <==> self.done < self.ids.len() && !self.failed
    }

    /// The scan after an answer.
    pub open spec fn answered(self, ew: Ewmh, reply: Option<PropertyReply>) -> ScanView {
        match self.probe {
            None => self,
            Some(p) => match ew.probed(p, reply) {
                ProbedView::Next(q) => ScanView { probe: Some(q), ..self },
                ProbedView::Skip => scan_at(self.ids, self.done + 1, self.found),
                ProbedView::Listed(w) => scan_at(self.ids, self.done + 1, self.found.push(w)),
                ProbedView::Failed => ScanView { probe: None, failed: true, ..self },
            },
        }
    }
}

impl Ewmh {
    /// Starts asking about all windows of a list.
    pub fn windows(ids: Vec<u32>) -> (r: WindowScan)
        ensures
            r@ == scan_at(ids@, 0, Seq::empty()),
            r@.wf(),
    {
        let probe = if ids.len() > 0 {
            Some(Self::probe(ids[0]))
        } else {
            None
        };
        let r = WindowScan { ids, done: 0, probe, found: Vec::new(), failed: false };
        assert(r@ =~= scan_at(ids@, 0, Seq::empty()));
        r
    }
}

impl WindowScan {
    /// The question to ask next; none when the scan is over.
    pub fn request(&self, ew: &Ewmh) -> (r: Option<PropertyRequest>)
        ensures
            r == match self@.probe {
                Some(p) => Some(ew.question(p.query())),
                None => None,
            },
    {
        match &self.probe {
            Some(p) => Some(ew.probe_request(p)),
            None => None,
        }
    }

    /// Takes in the answer to that question; `None` stands for a question
    /// that failed.
    pub fn answer(&mut self, ew: &Ewmh, reply: Option<PropertyReply>)
        requires
            old(self)@.wf(),
            reply matches Some(a) ==> a.wf(),
        ensures
            final(self)@ == old(self)@.answered(*ew, reply),
            final(self)@.wf(),
    {
        let ghost start = self@;
        if let Some(p) = self.probe.take() {
            match ew.take_answer(p, reply) {
                Probed::Next(q) => {
                    self.probe = Some(q);
                    assert(self@ =~= start.answered(*ew, reply));
                },
                Probed::Skip => {
                    self.advance();
                    assert(self@ =~= start.answered(*ew, reply));
                },
                Probed::Listed(w) => {
                    self.found.push(w);
                    assert(self@.found =~= start.found.push(w@));
                    self.advance();
                    assert(self@ =~= start.answered(*ew, reply));
                },
                Probed::Failed => {
                    self.failed = true;
                    assert(self@ =~= start.answered(*ew, reply));
                },
            }
        }
    }

    fn advance(&mut self)
        requires
            old(self)@.done < old(self)@.ids.len(),
            !old(self)@.failed,
        ensures
            final(self)@ == scan_at(old(self)@.ids, old(self)@.done + 1, old(self)@.found),
    {
        assert(self.ids.len() == self.ids@.len());
        self.done += 1;
        self.probe = if self.done < self.ids.len() {
            Some(Ewmh::probe(self.ids[self.done]))
        } else {
            None
        };
    }
}

impl Ewmh {
    /// What becomes of a window, given the answers to all questions about it;
    /// `None` stands for a question that fails. A window that keeps out of the
    /// taskbar or is not a normal one is skipped, and so is one that has
    /// neither a title nor a class. Only the first two questions have to be
    /// answered.
    pub open spec fn verdict(
        self,
        id: u32,
        answers: spec_fn(Query) -> Option<PropertyReply>,
    ) -> ProbedView {
        let desktop = match answers(Query::WindowDesktop { window: id }) {
            Some(r) => self.desktop_in(r),
            None => 0,
        };
        let title = match answers(Query::NetName { window: id }) {
            None => Seq::empty(),
            Some(r) if r.value_len > 0 => lossy_text(r.value@),
            Some(_) => match answers(Query::WmName { window: id }) {
                Some(r) if r.value_len > 0 => lossy_text(r.value@),
                _ => Seq::empty(),
            },
        };
        let class = match answers(Query::Class { window: id }) {
            Some(r) => class_in(r),
            None => Seq::empty(),
        };
        let icon = match answers(Query::Icon { window: id }) {
            Some(r) => self.icon_in(r),
            None => None,
        };
        match answers(Query::WindowState { window: id }) {
            None => ProbedView::Failed,
            Some(state) => if state.words(self.order).contains(
                self.atoms.net_wm_state_skip_taskbar,
            ) {
                ProbedView::Skip
            } else {
                match answers(Query::WindowType { window: id }) {
                    None => ProbedView::Failed,
                    Some(types) => if !self.normal_in(types) {
                        ProbedView::Skip
                    } else if title.len() == 0 && class.len() == 0 {
                        ProbedView::Skip
                    } else {
                        ProbedView::Listed(WindowView { id, desktop, title, class, icon })
                    },
                }
            },
        }
    }

    /// The windows of `ids` from number `from` on that are listed, in order;
    /// `None` if a question fails that has to be answered.
    pub open spec fn listed(
        self,
        ids: Seq<u32>,
        from: int,
        answers: spec_fn(Query) -> Option<PropertyReply>,
    ) -> Option<Seq<WindowView>>
        decreases ids.len() - from,
    {
        if from < 0 || from >= ids.len() {
            Some(Seq::empty())
        } else {
            match (self.verdict(ids[from], answers), self.listed(ids, from + 1, answers)) {
                (ProbedView::Failed, _) => None,
                (_, None) => None,
                (ProbedView::Listed(w), Some(rest)) => Some(seq![w] + rest),
                (_, Some(rest)) => Some(rest),
            }
        }
    }
}

impl ScanView {
    /// The scan after up to `n` more answers.
    pub open spec fn run(
        self,
        ew: Ewmh,
        answers: spec_fn(Query) -> Option<PropertyReply>,
        n: nat,
    ) -> ScanView
        decreases n,
    {
        match self.probe {
            Some(p) if n > 0 => self.answered(ew, answers(p.query())).run(
                ew,
                answers,
                (n - 1) as nat,
            ),
            _ => self,
        }
    }
}

/// The scan once the window at hand has been dealt with.
spec fn past_window(
    ew: Ewmh,
    ids: Seq<u32>,
    done: int,
    found: Seq<WindowView>,
    answers: spec_fn(Query) -> Option<PropertyReply>,
    end: ScanView,
) -> bool {
    match ew.verdict(ids[done], answers) {
        ProbedView::Failed => end.failed && end.probe is None,
        ProbedView::Skip => end == scan_at(ids, done + 1, found),
        ProbedView::Listed(w) => end == scan_at(ids, done + 1, found.push(w)),
        ProbedView::Next(_) => false,
    }
}

/// At most seven answers deal with one window.
proof fn lemma_one_window(
    ew: Ewmh,
    ids: Seq<u32>,
    done: int,
    found: Seq<WindowView>,
    answers: spec_fn(Query) -> Option<PropertyReply>,
    n: nat,
) -> (r: (ScanView, nat))
    requires
        0 <= done < ids.len(),
        n >= 7,
    ensures
        past_window(ew, ids, done, found, answers, r.0),
        r.1 + 7 >= n,
        scan_at(ids, done, found).run(ew, answers, n) == r.0.run(ew, answers, r.1),
{
    let s0 = scan_at(ids, done, found);
    let s1 = s0.answered(ew, answers(s0.probe->0.query()));
    if s1.probe is None || s1.done != done {
        (s1, (n - 1) as nat)
    } else {
        let s2 = s1.answered(ew, answers(s1.probe->0.query()));
        assert(s0.run(ew, answers, n) == s2.run(ew, answers, (n - 2) as nat)) by {
            reveal_with_fuel(ScanView::run, 3);
        }
        if s2.probe is None || s2.done != done {
            (s2, (n - 2) as nat)
        } else {
            let s3 = s2.answered(ew, answers(s2.probe->0.query()));
            let s4 = s3.answered(ew, answers(s3.probe->0.query()));
            let s5 = s4.answered(ew, answers(s4.probe->0.query()));
            let s6 = s5.answered(ew, answers(s5.probe->0.query()));
            assert(s2.run(ew, answers, (n - 2) as nat) == s6.run(ew, answers, (n - 6) as nat)) by {
                reveal_with_fuel(ScanView::run, 5);
            }
            if s5.probe->0.stage == Stage::Icon {
                (s6, (n - 6) as nat)
            } else {
                let s7 = s6.answered(ew, answers(s6.probe->0.query()));
                (s7, (n - 7) as nat)
            }
        }
    }
}

proof fn lemma_scan(
    ew: Ewmh,
    ids: Seq<u32>,
    done: int,
    found: Seq<WindowView>,
    answers: spec_fn(Query) -> Option<PropertyReply>,
    n: nat,
)
    requires
        0 <= done <= ids.len(),
        n >= 7 * (ids.len() - done),
    ensures
        ({
            let end = scan_at(ids, done, found).run(ew, answers, n);
            &&& end.probe is None
            &&& match ew.listed(ids, done, answers) {
                Some(rest) => !end.failed && end.found == found + rest,
                None => end.failed,
            }
        }),
    decreases ids.len() - done,
{
    let start = scan_at(ids, done, found);
    if done < ids.len() {
        let (end, m) = lemma_one_window(ew, ids, done, found, answers, n);
        match ew.verdict(ids[done], answers) {
            ProbedView::Failed => {},
            ProbedView::Skip => {
                lemma_scan(ew, ids, done + 1, found, answers, m);
            },
            ProbedView::Listed(w) => {
                lemma_scan(ew, ids, done + 1, found.push(w), answers, m);
                if let Some(rest) = ew.listed(ids, done + 1, answers) {
                    assert(found.push(w) + rest =~= found + (seq![w] + rest));
                }
            },
            ProbedView::Next(_) => {},
        }
    } else {
        assert(found + Seq::<WindowView>::empty() =~= found);
    }
}

/// Asking about all windows of a list comes to an end after at most seven
/// questions for each, and finds exactly the windows that are listed, in
/// order. It fails just if a question fails that has to be answered.
pub proof fn law_scan_finds_what_is_listed(
    ew: Ewmh,
    ids: Seq<u32>,
    answers: spec_fn(Query) -> Option<PropertyReply>,
    n: nat,
)
    requires
        n >= 7 * ids.len(),
    ensures
        ({
            let end = scan_at(ids, 0, Seq::empty()).run(ew, answers, n);
            &&& end.probe is None
            &&& match ew.listed(ids, 0, answers) {
                Some(windows) => !end.failed && end.found == windows,
                None => end.failed,
            }
        }),
{
    lemma_scan(ew, ids, 0, Seq::empty(), answers, n);
    if let Some(windows) = ew.listed(ids, 0, answers) {
        assert(Seq::<WindowView>::empty() + windows =~= windows);
    }
}

/// Which windows are listed: those that do not keep out of the taskbar, that
/// are normal ones or have no type, and that have a title or a class. The
/// questions about the first two have to be answered; if the one about the
/// taskbar is not, or that about the type is not and still matters, the whole
/// list fails.
pub proof fn law_which_windows_are_listed(
    ew: Ewmh,
    id: u32,
    answers: spec_fn(Query) -> Option<PropertyReply>,
)
    requires
        forall|q: Query| (#[trigger] answers(q)) matches Some(r) ==> r.wf(),
    ensures
        ({
            let verdict = ew.verdict(id, answers);
            let state = answers(Query::WindowState { window: id });
            let types = answers(Query::WindowType { window: id });
            let hidden = state matches Some(r) && r.format == 32 && r.value_len > 0 && words_in(
                r.value@,
                ew.order,
            ).contains(ew.atoms.net_wm_state_skip_taskbar);
            let normal = types matches Some(r) && (r.format != 32 || r.value_len == 0 || words_in(
                r.value@,
                ew.order,
            ).contains(ew.atoms.net_wm_window_type_normal));
            &&& verdict is Failed <==> state is None || (!hidden && types is None)
            &&& hidden ==> verdict is Skip
            &&& state is Some && types is Some && !normal ==> verdict is Skip
            &&& verdict matches ProbedView::Listed(w) ==> state is Some && !hidden && normal && (
            w.title.len() > 0 || w.class.len() > 0)
            &&& state is Some && !hidden && normal && verdict !is Listed ==> verdict is Skip
        }),
{
    if let Some(r) = answers(Query::WindowState { window: id }) {
        law_answers_hold_words(r, ew.order);
    }
    if let Some(r) = answers(Query::WindowType { window: id }) {
        law_answers_hold_words(r, ew.order);
    }
}

/// What is listed of a window: its own number; the desktop it names, or the
/// first; the title in the newer encoding, or the older one where the newer is
/// empty; its class; and its icon. An answer that fails counts as empty. A
/// window that would have neither title nor class is not listed.
pub proof fn law_what_is_listed_of_a_window(
    ew: Ewmh,
    id: u32,
    answers: spec_fn(Query) -> Option<PropertyReply>,
)
    requires
        forall|q: Query| (#[trigger] answers(q)) matches Some(r) ==> r.wf(),
        answers(Query::WindowState { window: id }) matches Some(r) && (r.format != 32
            || r.value_len == 0 || !words_in(r.value@, ew.order).contains(
            ew.atoms.net_wm_state_skip_taskbar,
        )),
        answers(Query::WindowType { window: id }) matches Some(r) && (r.format != 32
            || r.value_len == 0 || words_in(r.value@, ew.order).contains(
            ew.atoms.net_wm_window_type_normal,
        )),
    ensures
        ({
            let verdict = ew.verdict(id, answers);
            let named = answers(Query::WindowDesktop { window: id });
            let net = answers(Query::NetName { window: id });
            let old_name = answers(Query::WmName { window: id });
            let class = answers(Query::Class { window: id });
            let icon = answers(Query::Icon { window: id });
            let net_filled = net matches Some(r) && r.value_len > 0;
            let old_filled = old_name matches Some(r) && r.value_len > 0;
            let title = if net_filled {
                lossy_text(net->0.value@)
            } else if net is Some && old_filled {
                lossy_text(old_name->0.value@)
            } else {
                Seq::empty()
            };
            let program = match class {
                Some(r) => class_in(r),
                None => Seq::empty(),
            };
            &&& title.len() == 0 && program.len() == 0 ==> verdict is Skip
            &&& title.len() > 0 || program.len() > 0 ==> (verdict matches ProbedView::Listed(w) && {
                &&& w.id == id
                &&& w.title == title
                &&& w.class == program
                &&& w.desktop == if named is Some && named->0.format == 32 && named->0.value_len
                    > 0 {
                    words_in(named->0.value@, ew.order)[0]
                } else {
                    0
                }
                &&& w.icon == if icon is Some && icon->0.format == 32 && icon->0.value_len > 0 {
                    Some(words_in(icon->0.value@, ew.order))
                } else {
                    None
                }
            })
        }),
{
    if let Some(r) = answers(Query::WindowDesktop { window: id }) {
        law_answers_hold_words(r, ew.order);
    }
    if let Some(r) = answers(Query::Icon { window: id }) {
        law_answers_hold_words(r, ew.order);
    }
    if let Some(r) = answers(Query::WindowState { window: id }) {
        law_answers_hold_words(r, ew.order);
    }
    if let Some(r) = answers(Query::WindowType { window: id }) {
        law_answers_hold_words(r, ew.order);
    }
}

/// Every question is about the window at hand.
pub proof fn law_questions_are_about_the_window(ew: Ewmh, p: ProbeView)
    ensures
        ew.question(p.query()).window == p.id,
{
}

} // verus!
