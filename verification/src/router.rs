//! The menus of the dashboard: a stack of tab lists, and what a key does to it.

use crate::indicator::{added, registry_wf, with_number, Indicator, MetricView};
use crate::strings::str_eq;
use vstd::prelude::*;

verus! {

/// What a tab does when it is chosen.
#[derive(Debug, Clone, Copy, PartialEq, Eq, Structural)]
pub enum RouteType {
    /// Leave the list of tabs for the one below.
    Pop,
    /// Open what the tab stands for.
    Push,
    /// Leave the dashboard.
    Quit,
}

/// A key of the dashboard.
#[derive(Debug, Clone, Copy, PartialEq, Eq, Structural)]
pub enum Key {
    /// The key that leaves the dashboard.
    Quit,
    Up,
    Down,
    Enter,
    Left,
    Right,
    Esc,
    /// Any other key.
    Other,
}

/// One tab.
#[derive(Debug, PartialEq)]
pub struct Route {
    pub rtype: RouteType,
    pub label: String,
    pub name: String,
    /// Whether the tab is shown as a warning.
    pub red: bool,
}

/// The model of a [`Route`].
pub struct RouteView {
    pub rtype: RouteType,
    pub label: Seq<char>,
    pub name: Seq<char>,
    pub red: bool,
}

impl View for Route {
    type V = RouteView;

    open spec fn view(&self) -> RouteView {
        RouteView { rtype: self.rtype, label: self.label@, name: self.name@, red: self.red }
    }
}

impl Route {
    /// A tab; one that opens something is shown plainly, any other as a warning.
    pub fn new(rtype: RouteType, name: &str, label: &str) -> (route: Route)
        ensures
            route@ == (RouteView {
                rtype,
                label: label@,
                name: name@,
                red: rtype != RouteType::Push,
            }),
    {
        Route {
            rtype,
            label: label.to_string(),
            name: name.to_string(),
            red: match rtype {
                RouteType::Push => false,
                _ => true,
            },
        }
    }

    /// The tab, shown as a warning.
    pub fn with_red(self) -> (route: Route)
        ensures
            route@ == (RouteView { red: true, ..self@ }),
    {
        Route { red: true, ..self }
    }

    /// A copy of the tab.
    pub fn copy(&self) -> (route: Route)
        ensures
            route@ == self@,
    {
        Route {
            rtype: self.rtype,
            label: self.label.clone(),
            name: self.name.clone(),
            red: self.red,
        }
    }
}

/// The models of tabs, tab by tab.
pub open spec fn route_views(tabs: Seq<Route>) -> Seq<RouteView> {
    Seq::new(tabs.len(), |i: int| tabs[i]@)
}

/// The models of the lists of tabs that lie below the one on top, each with the
/// tab that was chosen in it.
pub open spec fn stack_views(stack: Seq<(usize, Vec<Route>)>) -> Seq<(usize, Seq<RouteView>)> {
    Seq::new(stack.len(), |i: int| (stack[i].0, route_views(stack[i].1@)))
}

/// The menus: the list of tabs on top with its chosen tab, and the lists below.
#[derive(Debug, PartialEq)]
pub struct Router {
    pub active_tabs: Vec<Route>,
    pub active_tab: usize,
    pub tabs_stack: Vec<(usize, Vec<Route>)>,
}

/// The model of a [`Router`].
pub struct RouterView {
    pub active_tabs: Seq<RouteView>,
    pub active_tab: usize,
    pub tabs_stack: Seq<(usize, Seq<RouteView>)>,
}

impl View for Router {
    type V = RouterView;

    open spec fn view(&self) -> RouterView {
        RouterView {
            active_tabs: route_views(self.active_tabs@),
            active_tab: self.active_tab,
            tabs_stack: stack_views(self.tabs_stack@),
        }
    }
}

/// The path of a stack of lists: for each list, from the bottom, a slash and the
/// name of the tab that was chosen in it; nothing for a list without that tab.
pub open spec fn path_of(stack: Seq<(usize, Seq<RouteView>)>) -> Seq<char>
    decreases stack.len(),
{
    if stack.len() == 0 {
        Seq::empty()
    } else {
        let top = stack.last();
        path_of(stack.drop_last()) + if top.0 < top.1.len() {
            "/"@ + top.1[top.0 as int].name
        } else {
            Seq::empty()
        }
    }
}

/// What a key gives.
#[derive(Debug, PartialEq)]
pub enum EventType {
    /// Leave the dashboard.
    Quit,
    /// The tab at the path was chosen with the key, to the effect of the kind.
    Click(String, RouteType, Key),
    /// Nothing for the dashboard to do.
    Inner,
}

/// The model of an [`EventType`].
pub enum EventView {
    Quit,
    Click(Seq<char>, RouteType, Key),
    Inner,
}

impl View for EventType {
    type V = EventView;

    open spec fn view(&self) -> EventView {
        match self {
            EventType::Quit => EventView::Quit,
            EventType::Click(path, rtype, key) => EventView::Click(path@, *rtype, *key),
            EventType::Inner => EventView::Inner,
        }
    }
}

impl RouterView {
    /// The path of the menus that are open.
    pub open spec fn current_path(self) -> Seq<char> {
        path_of(self.tabs_stack)
    }

    /// The menus after `tabs` were opened with the tab `active` chosen.
    pub open spec fn pushed(self, tabs: Seq<RouteView>, active: usize) -> RouterView {
        RouterView {
            active_tabs: tabs,
            active_tab: active,
            tabs_stack: self.tabs_stack.push((self.active_tab, self.active_tabs)),
        }
    }

    /// The menus after the list on top was left; the menus as they are where
    /// there is no list below.
    pub open spec fn popped(self) -> RouterView {
        if self.tabs_stack.len() == 0 {
            self
        } else {
            RouterView {
                active_tabs: self.tabs_stack.last().1,
                active_tab: self.tabs_stack.last().0,
                tabs_stack: self.tabs_stack.drop_last(),
            }
        }
    }

    /// The tab that is chosen after the key `key`: the one above or below, going
    /// round at the ends.
    pub open spec fn moved(self, key: Key) -> usize {
        if self.active_tabs.len() == 0 {
            self.active_tab
        } else if key == Key::Up {
            if self.active_tab > 0 {
                (self.active_tab - 1) as usize
            } else {
                (self.active_tabs.len() - 1) as usize
            }
        } else if key == Key::Down {
            if self.active_tab < self.active_tabs.len() - 1 {
                (self.active_tab + 1) as usize
            } else {
                0
            }
        } else {
            self.active_tab
        }
    }

    /// What the key `key` gives.
    pub open spec fn event(self, key: Key) -> EventView {
        match key {
            Key::Quit => EventView::Quit,
            Key::Enter | Key::Left | Key::Right | Key::Esc => if self.active_tab
                < self.active_tabs.len() {
                EventView::Click(
                    self.current_path() + "/"@ + self.active_tabs[self.active_tab as int].name,
                    if key == Key::Esc {
                        RouteType::Pop
                    } else {
                        self.active_tabs[self.active_tab as int].rtype
                    },
                    key,
                )
            } else {
                EventView::Inner
            },
            _ => EventView::Inner,
        }
    }
}

impl Router {
    /// The menus with `init_tabs` on top and nothing below.
    pub fn new(init_tabs: Vec<Route>) -> (router: Router)
        ensures
            router@ == (RouterView {
                active_tabs: route_views(init_tabs@),
                active_tab: 0,
                tabs_stack: Seq::empty(),
            }),
    {
        let router = Router { active_tabs: init_tabs, active_tab: 0, tabs_stack: Vec::new() };
        assert(router@.tabs_stack =~= Seq::empty());
        router
    }

    /// The tab that is chosen, where the list on top has it.
    pub fn current_tab(&self) -> (tab: Option<&Route>)
        ensures
            match tab {
                Some(t) => self@.active_tab < self@.active_tabs.len() && t@
                    == self@.active_tabs[self@.active_tab as int],
                None => self@.active_tab >= self@.active_tabs.len(),
            },
    {
        if self.active_tab < self.active_tabs.len() {
            Some(&self.active_tabs[self.active_tab])
        } else {
            None
        }
    }

    /// The path of the menus that are open.
    pub fn current_path(&self) -> (path: String)
        ensures
            path@ == self@.current_path(),
    {
        let ghost stack = self@.tabs_stack;
        let mut path = String::new();
        let mut i: usize = 0;
        while i < self.tabs_stack.len()
            invariant
                i <= self.tabs_stack.len(),
                stack == self@.tabs_stack,
                stack.len() == self.tabs_stack@.len(),
                path@ == path_of(stack.take(i as int)),
            decreases self.tabs_stack.len() - i,
        {
            let entry = &self.tabs_stack[i];
            proof {
                let next = stack.take(i as int + 1);
                assert(next.drop_last() =~= stack.take(i as int));
            }
            if entry.0 < entry.1.len() {
                path.append("/");
                path.append(entry.1[entry.0].name.as_str());
            }
            i += 1;
        }
        assert(stack.take(self.tabs_stack.len() as int) =~= stack);
        path
    }

    /// Opens `tabs` on top of the menus, with the tab `active` chosen.
    pub fn push(&mut self, tabs: Vec<Route>, active: usize)
        ensures
            final(self)@ == old(self)@.pushed(route_views(tabs@), active),
    {
        let mut below: Vec<Route> = Vec::new();
        below.append(&mut self.active_tabs);
        self.tabs_stack.push((self.active_tab, below));
        self.active_tabs = tabs;
        self.active_tab = active;
        assert(self@.tabs_stack =~= old(self)@.tabs_stack.push(
            (old(self)@.active_tab, old(self)@.active_tabs),
        ));
    }

    /// Leaves the list on top for the one below, where there is one.
    pub fn pop(&mut self)
        ensures
            final(self)@ == old(self)@.popped(),
    {
        match self.tabs_stack.pop() {
            Some((active_tab, active_tabs)) => {
                self.active_tab = active_tab;
                self.active_tabs = active_tabs;
                assert(self@.tabs_stack =~= old(self)@.tabs_stack.drop_last());
            },
            None => {},
        }
    }

    /// Takes a key: the arrows up and down choose another tab, and the other
    /// keys of the dashboard give what is to be done.
    pub fn event(&mut self, key: Key) -> (r: EventType)
        ensures
            r@ == old(self)@.event(key),
            final(self)@ == (RouterView { active_tab: old(self)@.moved(key), ..old(self)@ }),
    {
        let n = self.active_tabs.len();
        match key {
            Key::Quit => EventType::Quit,
            Key::Up => {
                if n > 0 {
                    self.active_tab = if self.active_tab > 0 {
                        self.active_tab - 1
                    } else {
                        n - 1
                    };
                }
                EventType::Inner
            },
            Key::Down => {
                if n > 0 {
                    self.active_tab = if self.active_tab < n - 1 {
                        self.active_tab + 1
                    } else {
                        0
                    };
                }
                EventType::Inner
            },
            Key::Enter | Key::Left | Key::Right | Key::Esc => {
                if self.active_tab < n {
                    let mut path = self.current_path();
                    path.append("/");
                    path.append(self.active_tabs[self.active_tab].name.as_str());
                    let rtype = match key {
                        Key::Esc => RouteType::Pop,
                        _ => self.active_tabs[self.active_tab].rtype,
                    };
                    EventType::Click(path, rtype, key)
                } else {
                    EventType::Inner
                }
            },
            Key::Other => EventType::Inner,
        }
    }
}

/// A command that the dashboard runs.
#[derive(Debug, Clone, Copy, PartialEq, Eq, Structural)]
pub enum Job {
    Stress,
    Replay,
    Revert,
    Resume,
}

/// A list of tabs of the dashboard.
#[derive(Debug, Clone, Copy, PartialEq, Eq, Structural)]
pub enum Menu {
    /// The commands to choose from.
    Main,
    Stress,
    Replay,
    /// The keys that scroll the view of the log.
    OpLog,
    /// What can be done about a stress run or a replay under way.
    Run,
    /// What can be done about a revert or a resume under way.
    Stopper,
    /// The answers to a question.
    Popup,
}

/// What the dashboard does when a tab is chosen.
#[derive(Debug, Clone, Copy, PartialEq, Eq, Structural)]
pub enum Action {
    /// Open a list of tabs.
    Open(Menu),
    /// Open the view of the log with its list of tabs.
    ShowLog,
    /// Move the view of the log by lines and by columns.
    Scroll { down: i16, right: i16 },
    /// Open the list of tabs of a run and start the command.
    Start(Job),
    /// Ask the run to stop unless it has stopped, and leave its list of tabs.
    Back,
    /// Ask the run to stop.
    Stop,
    /// Ask the run to stop and leave its list of tabs.
    StopAndLeave,
    /// Ask for a number: of the workers to add where `boost` is set, else of
    /// the operations that may be under way at once.
    Ask { boost: bool },
    /// Take the number that was asked for.
    Confirm { boost: bool },
    /// Drop the question.
    Cancel,
    /// Leave the dashboard.
    Quit,
    Nothing,
}

/// What the dashboard does when the tab at `path` is chosen with `key`.
pub open spec fn action_at(path: Seq<char>, key: Key) -> Action {
    if path == "/Stress"@ {
        Action::Open(Menu::Stress)
    } else if path == "/Replay"@ {
        Action::Open(Menu::Replay)
    } else if path == "/Stress/OpLog"@ {
        Action::ShowLog
    } else if path == "/Stress/OpLog/ScrollUP"@ {
        Action::Scroll { down: -1i16, right: 0i16 }
    } else if path == "/Stress/OpLog/ScrollDown"@ {
        Action::Scroll { down: 1i16, right: 0i16 }
    } else if path == "/Stress/OpLog/ScrollLeft"@ {
        Action::Scroll {
            down: 0i16,
            right: if key == Key::Left {
                -10i16
            } else {
                -1i16
            },
        }
    } else if path == "/Stress/OpLog/ScrollRight"@ {
        Action::Scroll {
            down: 0i16,
            right: if key == Key::Right {
                10i16
            } else {
                1i16
            },
        }
    } else if path == "/Stress/Start"@ {
        Action::Start(Job::Stress)
    } else if path == "/Replay/Start"@ {
        Action::Start(Job::Replay)
    } else if path == "/Replay/Revert"@ {
        Action::Start(Job::Revert)
    } else if path == "/Replay/Resume"@ {
        Action::Start(Job::Resume)
    } else if path == "/Stress/Start/Back"@ || path == "/Replay/Start/Back"@ {
        Action::Back
    } else if path == "/Stress/Start/Stop"@ || path == "/Replay/Start/Stop"@ {
        Action::Stop
    } else if path == "/Replay/Revert/Stop"@ || path == "/Replay/Resume/Stop"@ {
        Action::StopAndLeave
    } else if path == "/Stress/Start/Boost+"@ || path == "/Replay/Start/Boost+"@ {
        Action::Ask { boost: true }
    } else if path == "/Stress/Start/CCLimit"@ || path == "/Replay/Start/CCLimit"@ {
        Action::Ask { boost: false }
    } else if path == "/Stress/Start/Boost+/Confirm"@ || path == "/Replay/Start/Boost+/Confirm"@ {
        Action::Confirm { boost: true }
    } else if path == "/Stress/Start/CCLimit/Confirm"@ || path
        == "/Replay/Start/CCLimit/Confirm"@ {
        Action::Confirm { boost: false }
    } else if path == "/Stress/Start/Boost+/Cancel"@ || path == "/Replay/Start/Boost+/Cancel"@
        || path == "/Stress/Start/CCLimit/Cancel"@ || path == "/Replay/Start/CCLimit/Cancel"@ {
        Action::Cancel
    } else if path == "/Quit"@ {
        Action::Quit
    } else {
        Action::Nothing
    }
}

/// What the dashboard does when the tab at `path` is chosen with `key`.
pub fn click_action(path: &str, key: Key) -> (action: Action)
    ensures
        action == action_at(path@, key),
{
    if str_eq(path, "/Stress") {
        Action::Open(Menu::Stress)
    } else if str_eq(path, "/Replay") {
        Action::Open(Menu::Replay)
    } else if str_eq(path, "/Stress/OpLog") {
        Action::ShowLog
    } else if str_eq(path, "/Stress/OpLog/ScrollUP") {
        Action::Scroll { down: -1, right: 0 }
    } else if str_eq(path, "/Stress/OpLog/ScrollDown") {
        Action::Scroll { down: 1, right: 0 }
    } else if str_eq(path, "/Stress/OpLog/ScrollLeft") {
        Action::Scroll {
            down: 0,
            right: match key {
                Key::Left => -10,
                _ => -1,
            },
        }
    } else if str_eq(path, "/Stress/OpLog/ScrollRight") {
        Action::Scroll {
            down: 0,
            right: match key {
                Key::Right => 10,
                _ => 1,
            },
        }
    } else if str_eq(path, "/Stress/Start") {
        Action::Start(Job::Stress)
    } else if str_eq(path, "/Replay/Start") {
        Action::Start(Job::Replay)
    } else if str_eq(path, "/Replay/Revert") {
        Action::Start(Job::Revert)
    } else if str_eq(path, "/Replay/Resume") {
        Action::Start(Job::Resume)
    } else if str_eq(path, "/Stress/Start/Back") || str_eq(path, "/Replay/Start/Back") {
        Action::Back
    } else if str_eq(path, "/Stress/Start/Stop") || str_eq(path, "/Replay/Start/Stop") {
        Action::Stop
    } else if str_eq(path, "/Replay/Revert/Stop") || str_eq(path, "/Replay/Resume/Stop") {
        Action::StopAndLeave
    } else if str_eq(path, "/Stress/Start/Boost+") || str_eq(path, "/Replay/Start/Boost+") {
        Action::Ask { boost: true }
    } else if str_eq(path, "/Stress/Start/CCLimit") || str_eq(path, "/Replay/Start/CCLimit") {
        Action::Ask { boost: false }
    } else if str_eq(path, "/Stress/Start/Boost+/Confirm") || str_eq(
        path,
        "/Replay/Start/Boost+/Confirm",
    ) {
        Action::Confirm { boost: true }
    } else if str_eq(path, "/Stress/Start/CCLimit/Confirm") || str_eq(
        path,
        "/Replay/Start/CCLimit/Confirm",
    ) {
        Action::Confirm { boost: false }
    } else if str_eq(path, "/Stress/Start/Boost+/Cancel") || str_eq(
        path,
        "/Replay/Start/Boost+/Cancel",
    ) || str_eq(path, "/Stress/Start/CCLimit/Cancel") || str_eq(
        path,
        "/Replay/Start/CCLimit/Cancel",
    ) {
        Action::Cancel
    } else if str_eq(path, "/Quit") {
        Action::Quit
    } else {
        Action::Nothing
    }
}

/// The list of tabs that a command under way is given.
pub open spec fn menu_of_job(job: Job) -> Menu {
    match job {
        Job::Stress | Job::Replay => Menu::Run,
        Job::Revert | Job::Resume => Menu::Stopper,
    }
}

/// A tab that opens something.
pub open spec fn tab(name: Seq<char>) -> RouteView {
    RouteView { rtype: RouteType::Push, label: name, name, red: false }
}

/// A tab that opens something and is shown as a warning.
pub open spec fn red_tab(name: Seq<char>) -> RouteView {
    RouteView { rtype: RouteType::Push, label: name, name, red: true }
}

/// The tab that leaves a list of tabs.
pub open spec fn back_tab() -> RouteView {
    RouteView { rtype: RouteType::Pop, label: "Back"@, name: "Back"@, red: true }
}

/// The tabs of a list.
pub open spec fn tabs_of(menu: Menu) -> Seq<RouteView> {
    match menu {
        Menu::Main => seq![
            tab("Stress"@),
            tab("Replay"@),
            RouteView { rtype: RouteType::Quit, label: "Quit"@, name: "Quit"@, red: true },
        ],
        Menu::Stress => seq![tab("Start"@), back_tab()],
        Menu::Replay => seq![tab("Revert"@), tab("Start"@), tab("Resume"@), back_tab()],
        Menu::OpLog => seq![
            tab("ScrollUP"@),
            tab("ScrollDown"@),
            tab("ScrollLeft"@),
            tab("ScrollRight"@),
            back_tab(),
        ],
        Menu::Run => seq![tab("Boost+"@), tab("CCLimit"@), red_tab("Stop"@), red_tab("Back"@)],
        Menu::Stopper => seq![red_tab("Stop"@)],
        Menu::Popup => seq![tab("Confirm"@), red_tab("Cancel"@)],
    }
}

/// The list of tabs that a command under way is given.
pub fn job_menu(job: Job) -> (menu: Menu)
    ensures
        menu == menu_of_job(job),
{
    match job {
        Job::Stress | Job::Replay => Menu::Run,
        Job::Revert | Job::Resume => Menu::Stopper,
    }
}

/// The tabs of the list `menu`.
pub fn menu_tabs(menu: Menu) -> (tabs: Vec<Route>)
    ensures
        route_views(tabs@) == tabs_of(menu),
{
    let mut tabs: Vec<Route> = Vec::new();
    match menu {
        Menu::Main => {
            tabs.push(Route::new(RouteType::Push, "Stress", "Stress"));
            tabs.push(Route::new(RouteType::Push, "Replay", "Replay"));
            tabs.push(Route::new(RouteType::Quit, "Quit", "Quit"));
        },
        Menu::Stress => {
            tabs.push(Route::new(RouteType::Push, "Start", "Start"));
            tabs.push(Route::new(RouteType::Pop, "Back", "Back"));
        },
        Menu::Replay => {
            tabs.push(Route::new(RouteType::Push, "Revert", "Revert"));
            tabs.push(Route::new(RouteType::Push, "Start", "Start"));
            tabs.push(Route::new(RouteType::Push, "Resume", "Resume"));
            tabs.push(Route::new(RouteType::Pop, "Back", "Back"));
        },
        Menu::OpLog => {
            tabs.push(Route::new(RouteType::Push, "ScrollUP", "ScrollUP"));
            tabs.push(Route::new(RouteType::Push, "ScrollDown", "ScrollDown"));
            tabs.push(Route::new(RouteType::Push, "ScrollLeft", "ScrollLeft"));
            tabs.push(Route::new(RouteType::Push, "ScrollRight", "ScrollRight"));
            tabs.push(Route::new(RouteType::Pop, "Back", "Back"));
        },
        Menu::Run => {
            tabs.push(Route::new(RouteType::Push, "Boost+", "Boost+"));
            tabs.push(Route::new(RouteType::Push, "CCLimit", "CCLimit"));
            tabs.push(Route::new(RouteType::Push, "Stop", "Stop").with_red());
            tabs.push(Route::new(RouteType::Push, "Back", "Back").with_red());
        },
        Menu::Stopper => {
            tabs.push(Route::new(RouteType::Push, "Stop", "Stop").with_red());
        },
        Menu::Popup => {
            tabs.push(Route::new(RouteType::Push, "Confirm", "Confirm"));
            tabs.push(Route::new(RouteType::Push, "Cancel", "Cancel").with_red());
        },
    }
    tabs
}

/// The value of a decimal digit, if the character is one.
pub open spec fn digit_value(c: char) -> Option<nat> {
    if '0' <= c && c <= '9' {
        Some((c as nat - '0' as nat) as nat)
    } else {
        None
    }
}

/// The number that a run of decimal digits stands for, if they are digits.
pub open spec fn digits_value(text: Seq<char>) -> Option<nat>
    decreases text.len(),
{
    if text.len() == 0 {
        Some(0nat)
    } else {
        match (digits_value(text.drop_last()), digit_value(text.last())) {
            (Some(high), Some(low)) => Some(high * 10 + low),
            _ => None,
        }
    }
}

/// The number that one or more decimal digits stand for, where it fits the
/// machine word.
pub open spec fn digits_read(text: Seq<char>) -> Option<usize> {
    if text.len() == 0 {
        None
    } else {
        match digits_value(text) {
            Some(n) => if n <= usize::MAX {
                Some(n as usize)
            } else {
                None
            },
            None => None,
        }
    }
}

/// The count that a text stands for: one or more decimal digits, with or
/// without a plus sign before them, whose number fits the machine word; nothing
/// for any other text.
pub open spec fn count_read(text: Seq<char>) -> Option<usize> {
    if text.len() > 0 && text[0] == '+' {
        digits_read(text.skip(1))
    } else {
        digits_read(text)
    }
}

/// Reads a count.
pub fn parse_count(text: &str) -> (r: Option<usize>)
    ensures
        r == count_read(text@),
{
    let len = text.unicode_len();
    if len > 0 && text.get_char(0) == '+' {
        let digits = text.substring_char(1, len);
        parse_digits(digits)
    } else {
        parse_digits(text)
    }
}

/// Reads a run of decimal digits.
fn parse_digits(text: &str) -> (r: Option<usize>)
    ensures
        r == digits_read(text@),
{
    let len = text.unicode_len();
    if len == 0 {
        return None;
    }
    let mut value: usize = 0;
    let mut i: usize = 0;
    while i < len
        invariant
            len == text@.len(),
            i <= len,
            digits_value(text@.take(i as int)) == Some(value as nat),
        decreases len - i,
    {
        let c = text.get_char(i);
        proof {
            let next = text@.take(i as int + 1);
            assert(next.drop_last() =~= text@.take(i as int));
        }
        if !('0' <= c && c <= '9') {
            proof {
                lemma_digits_fail(text@, i as int + 1);
            }
            return None;
        }
        let low = (c as u32 - '0' as u32) as usize;
        let grown = match value.checked_mul(10) {
            Some(tens) => tens.checked_add(low),
            None => None,
        };
        match grown {
            Some(v) => {
                value = v;
            },
            None => {
                proof {
                    lemma_digits_large(text@, i as int + 1);
                }
                return None;
            },
        }
        i += 1;
    }
    assert(text@.take(len as int) =~= text@);
    Some(value)
}

/// A text of which a beginning is no run of digits is no run of digits.
pub proof fn lemma_digits_fail(text: Seq<char>, upto: int)
    requires
        0 <= upto <= text.len(),
        digits_value(text.take(upto)).is_none(),
    ensures
        digits_value(text).is_none(),
    decreases text.len() - upto,
{
    if upto < text.len() {
        let next = text.take(upto + 1);
        assert(next.drop_last() =~= text.take(upto));
        lemma_digits_fail(text, upto + 1);
    } else {
        assert(text.take(upto) =~= text);
    }
}

/// A text of which a beginning stands for a number that does not fit the
/// machine word stands for no count.
pub proof fn lemma_digits_large(text: Seq<char>, upto: int)
    requires
        0 <= upto <= text.len(),
        digits_value(text.take(upto)).is_some(),
        digits_value(text.take(upto)).unwrap() > usize::MAX,
    ensures
        text.len() > 0,
        digits_read(text).is_none(),
    decreases text.len() - upto,
{
    if upto < text.len() {
        let next = text.take(upto + 1);
        assert(next.drop_last() =~= text.take(upto));
        if digits_value(next).is_some() {
            lemma_digits_large(text, upto + 1);
        } else {
            lemma_digits_fail(text, upto + 1);
        }
    } else {
        assert(text.take(upto) =~= text);
    }
}

/// The registry after the number `input` was taken as an answer: added to the
/// workers that are wanted where `boost` is set, else set as the limit of the
/// operations under way. A text that stands for no count changes nothing.
pub open spec fn confirmed(e: Seq<(Seq<char>, MetricView)>, boost: bool, input: Seq<char>) -> Seq<
    (Seq<char>, MetricView),
> {
    match count_read(input) {
        Some(n) => if boost {
            added(e, "dyn_threads"@, n)
        } else {
            with_number(e, "dyn_cc_limit"@, n)
        },
        None => e,
    }
}

/// Takes the answer `input` to a question of the dashboard, and says whether it
/// was a count.
pub fn confirm(ind: &mut Indicator, boost: bool, input: &str) -> (taken: bool)
    ensures
        taken == count_read(input@).is_some(),
        final(ind)@ == confirmed(old(ind)@, boost, input@),
        registry_wf(old(ind)@) ==> registry_wf(final(ind)@),
{
    match parse_count(input) {
        Some(n) => {
            if boost {
                ind.add("dyn_threads", n);
            } else {
                ind.set("dyn_cc_limit", n);
            }
            true
        },
        None => false,
    }
}

/// Opening a list of tabs and leaving it again gives the menus as they were.
pub proof fn lemma_push_pop(router: RouterView, tabs: Seq<RouteView>, active: usize)
    ensures
        router.pushed(tabs, active).popped() == router,
{
    let pushed = router.pushed(tabs, active);
    assert(pushed.tabs_stack.drop_last() =~= router.tabs_stack);
}

/// Opening the list of a tab that is chosen adds a slash and the name of that
/// tab to the path.
pub proof fn lemma_push_extends_path(router: RouterView, tabs: Seq<RouteView>, active: usize)
    requires
        router.active_tab < router.active_tabs.len(),
    ensures
        router.pushed(tabs, active).current_path() == router.current_path() + "/"@
            + router.active_tabs[router.active_tab as int].name,
{
    let pushed = router.pushed(tabs, active);
    assert(pushed.tabs_stack.drop_last() =~= router.tabs_stack);
}

} // verus!
