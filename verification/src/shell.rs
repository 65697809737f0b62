//! The app shell: which tab is shown.

use vstd::prelude::*;

verus! {

/// The place of the timeline among the tabs.
pub const TAB_TIMELINE: usize = 0;

/// The place of the settings among the tabs.
pub const TAB_SETTINGS: usize = 1;

/// What a tab shows.
#[derive(Clone, Copy, Debug, PartialEq, Eq, Structural)]
pub enum TabContent {
    Timeline,
    Settings,
}

/// The app shell.
#[derive(Clone, Copy, Debug, PartialEq, Eq, Structural)]
pub struct App {
    pub active_tab: usize,
}

/// What ended a step.
#[derive(Clone, Copy, Debug, PartialEq, Eq, Structural)]
pub enum AppStepResult {
    TabClicked(usize),
    ContentStep,
}

/// What the tab at a place shows; there are two tabs.
pub open spec fn tab_content(index: usize) -> Option<TabContent> {
    if index == 0 {
        Some(TabContent::Timeline)
    } else if index == 1 {
        Some(TabContent::Settings)
    } else {
        None
    }
}

/// The shell after a step.
pub open spec fn stepped(app: App, result: AppStepResult) -> App {
    match result {
        AppStepResult::TabClicked(index) => App { active_tab: index },
        AppStepResult::ContentStep => app,
    }
}

impl Default for App {
    fn default() -> (r: Self)
        ensures
            r == (App { active_tab: 0 }),
            tab_content(r.active_tab) == Some(TabContent::Timeline),
    {
        App { active_tab: TAB_TIMELINE }
    }
}

impl App {
    /// What is shown, and steps along with the tabs: nothing, where the tab shows nothing.
    pub fn content(&self) -> (r: Option<TabContent>)
        ensures
            r == tab_content(self.active_tab),
    {
        if self.active_tab == TAB_TIMELINE {
            Some(TabContent::Timeline)
        } else if self.active_tab == TAB_SETTINGS {
            Some(TabContent::Settings)
        } else {
            None
        }
    }

    /// Selects a tab.
    pub fn select_tab(&mut self, index: usize)
        ensures
            final(self).active_tab == index,
    {
        self.active_tab = index;
    }

    /// Takes in what ended a step: a click on a tab selects it.
    pub fn step(&mut self, result: AppStepResult)
        ensures
            *final(self) == stepped(*old(self), result),
    {
        match result {
            AppStepResult::TabClicked(index) => self.select_tab(index),
            AppStepResult::ContentStep => {},
        }
    }
}

/// The tab that was clicked last is the one that is shown, however often its content steps.
pub proof fn last_click_wins(app: App, first: usize, second: usize)
    ensures
        stepped(
            stepped(app, AppStepResult::TabClicked(first)),
            AppStepResult::TabClicked(second),
        ) == stepped(app, AppStepResult::TabClicked(second)),
        stepped(
            stepped(app, AppStepResult::TabClicked(first)),
            AppStepResult::ContentStep,
        ) == stepped(app, AppStepResult::TabClicked(first)),
{
}

/// A click on a tab shows what that tab is for: the first the timeline, the second the settings,
/// and any other nothing. A step of the content changes no tab.
pub proof fn clicked_tabs_are_shown(app: App, index: usize)
    ensures
        stepped(app, AppStepResult::TabClicked(index)).active_tab == index,
        stepped(app, AppStepResult::ContentStep).active_tab == app.active_tab,
        tab_content(index) == Some(TabContent::Timeline) <==> index == 0,
        tab_content(index) == Some(TabContent::Settings) <==> index == 1,
        tab_content(index) is None <==> index > 1,
{
}

/// The shell begins with the timeline, and shows what its tab is for.
pub proof fn the_timeline_comes_first(begun: App, app: &App, content: Option<TabContent>)
    requires
        call_ensures(<App as Default>::default, (), begun),
        call_ensures(App::content, (app,), content),
    ensures
        tab_content(begun.active_tab) == Some(TabContent::Timeline),
        content == Some(TabContent::Timeline) <==> app.active_tab == 0,
        content == Some(TabContent::Settings) <==> app.active_tab == 1,
        content is None <==> app.active_tab > 1,
{
    clicked_tabs_are_shown(*app, app.active_tab);
}

} // verus!
