//! The settings: a form for the configuration, and what the user's actions lead to.

use crate::config::TokenEntry;
use crate::text::{decimal_text, is_empty, parse_u64, str_eq};
use crate::view::{Alert, Flavor};
use crate::wire::{AppConfig, AppError, Command, Response, Subscription, SubscriptionKind};
use vstd::prelude::*;
use vstd::string::StringExecFns;

verus! {

/// The poll interval where the form holds none.
pub const DEFAULT_INTERVAL_SECS: u64 = 60;

/// A single subscription row in the form: the values of its inputs, as far as they have one.
#[derive(Debug)]
pub struct SubRow {
    pub kind: Option<String>,
    pub name: Option<String>,
}

/// The contents of a subscription row.
pub struct SubRowModel {
    pub kind: Option<Seq<char>>,
    pub name: Option<Seq<char>>,
}

impl View for SubRow {
    type V = SubRowModel;

    open spec fn view(&self) -> SubRowModel {
        SubRowModel {
            kind: crate::wire::option_text(self.kind),
            name: crate::wire::option_text(self.name),
        }
    }
}

/// The contents of each row of a list.
pub open spec fn sub_row_models(rows: Seq<SubRow>) -> Seq<SubRowModel> {
    rows.map_values(|r: SubRow| r@)
}

/// The form's input for the token.
#[derive(Debug)]
pub enum TokenInput {
    /// Stands for the token in use, which is not known here, and was not edited.
    InUse,
    /// The value of the input, if it has one.
    Value(Option<String>),
}

/// The contents of the input for the token.
pub enum TokenInputModel {
    InUse,
    Value(Option<Seq<char>>),
}

impl View for TokenInput {
    type V = TokenInputModel;

    open spec fn view(&self) -> TokenInputModel {
        match *self {
            TokenInput::InUse => TokenInputModel::InUse,
            TokenInput::Value(value) => TokenInputModel::Value(crate::wire::option_text(value)),
        }
    }
}

/// The values of the form's inputs, as far as they have one.
#[derive(Debug)]
pub struct SettingsForm {
    pub token: TokenInput,
    pub poll_interval: Option<String>,
    pub sub_rows: Vec<SubRow>,
}

/// The contents of a form.
#[verifier::ext_equal]
pub struct FormModel {
    pub token: TokenInputModel,
    pub poll_interval: Option<Seq<char>>,
    pub sub_rows: Seq<SubRowModel>,
}

impl View for SettingsForm {
    type V = FormModel;

    open spec fn view(&self) -> FormModel {
        FormModel {
            token: self.token@,
            poll_interval: crate::wire::option_text(self.poll_interval),
            sub_rows: sub_row_models(self.sub_rows@),
        }
    }
}

/// The value of an input, or nothing where it has none.
pub open spec fn value_or_empty(value: Option<Seq<char>>) -> Seq<char> {
    match value {
        Some(value) => value,
        None => Seq::empty(),
    }
}

/// The kind that the value of a row's selection stands for: that of a repo, for any but "org".
pub open spec fn kind_of_value(value: Seq<char>) -> SubscriptionKind {
    if value == "org"@ {
        SubscriptionKind::Org
    } else {
        SubscriptionKind::Repo
    }
}

/// The value of a row's selection for a kind.
pub open spec fn value_of_kind(kind: SubscriptionKind) -> Seq<char> {
    match kind {
        SubscriptionKind::Org => "org"@,
        SubscriptionKind::Repo => "repo"@,
    }
}

/// The row for a subscription.
pub open spec fn sub_row(s: crate::wire::SubscriptionModel) -> SubRowModel {
    SubRowModel { kind: Some(value_of_kind(s.kind)), name: Some(s.name) }
}

/// The subscription in a row; there is none where the name is empty.
pub open spec fn subscription_in(row: SubRowModel) -> Option<crate::wire::SubscriptionModel> {
    if value_or_empty(row.name).len() == 0 {
        None
    } else {
        Some(
            crate::wire::SubscriptionModel {
                kind: kind_of_value(value_or_empty(row.kind)),
                name: value_or_empty(row.name),
            },
        )
    }
}

/// The subscriptions in rows.
pub open spec fn subscriptions_in(rows: Seq<SubRowModel>) -> Seq<crate::wire::SubscriptionModel>
    decreases rows.len(),
{
    if rows.len() == 0 {
        Seq::empty()
    } else {
        match subscription_in(rows.last()) {
            Some(s) => subscriptions_in(rows.drop_last()).push(s),
            None => subscriptions_in(rows.drop_last()),
        }
    }
}

/// What a form says of the token; an input that is empty stands for none.
pub open spec fn token_in(form: FormModel) -> crate::config::TokenEntryModel {
    match form.token {
        TokenInputModel::InUse => crate::config::TokenEntryModel::InUse,
        TokenInputModel::Value(value) => crate::config::TokenEntryModel::Entered(
            crate::config::token_of_text(value_or_empty(value)),
        ),
    }
}

/// The poll interval in a form: a minute, where the input holds no number.
pub open spec fn interval_in(form: FormModel) -> u64 {
    match form.poll_interval {
        Some(text) => match crate::text::parsed_u64(text) {
            Some(secs) => secs,
            None => 60,
        },
        None => 60,
    }
}

/// The configuration in a form.
pub open spec fn config_in(form: FormModel) -> crate::wire::AppConfigModel {
    crate::wire::AppConfigModel {
        poll_interval_secs: interval_in(form),
        subscriptions: subscriptions_in(form.sub_rows),
        has_token: token_in(form) != crate::config::TokenEntryModel::Entered(None),
    }
}

/// The form for a configuration. The token is not known here, only whether there is one.
pub open spec fn form_of(config: crate::wire::AppConfigModel) -> FormModel {
    FormModel {
        token: if config.has_token {
            TokenInputModel::InUse
        } else {
            TokenInputModel::Value(Some(Seq::empty()))
        },
        poll_interval: Some(crate::text::decimal(config.poll_interval_secs as nat)),
        sub_rows: config.subscriptions.map_values(
            |s: crate::wire::SubscriptionModel| sub_row(s),
        ),
    }
}

/// A form with an empty row at its end.
pub open spec fn with_empty_row(form: FormModel) -> FormModel {
    FormModel {
        sub_rows: form.sub_rows.push(
            SubRowModel { kind: Some("org"@), name: Some(Seq::empty()) },
        ),
        ..form
    }
}

/// A form without the row at a place; the form itself, where there is no such row.
pub open spec fn without_row(form: FormModel, index: usize) -> FormModel {
    if index < form.sub_rows.len() {
        FormModel { sub_rows: form.sub_rows.remove(index as int), ..form }
    } else {
        form
    }
}

/// What the settings show.
#[derive(Debug)]
pub struct SettingsView {
    pub form: SettingsForm,
    /// Whether the save button is disabled and shows a spinner.
    pub saving: bool,
    pub status_alert: Alert,
    /// Whether a load of the configuration was tried.
    pub loaded: bool,
}

/// The contents of the settings.
#[verifier::ext_equal]
pub struct SettingsModel {
    pub form: FormModel,
    pub saving: bool,
    pub status: crate::view::AlertModel,
    pub loaded: bool,
}

impl View for SettingsView {
    type V = SettingsModel;

    open spec fn view(&self) -> SettingsModel {
        SettingsModel {
            form: self.form@,
            saving: self.saving,
            status: self.status_alert@,
            loaded: self.loaded,
        }
    }
}

/// What the user does.
#[derive(Clone, Copy, Debug, PartialEq, Eq, Structural)]
pub enum SettingsAction {
    Save,
    AddSub,
    RemoveSub(usize),
}

/// A configuration to be saved, with what the form says of the token.
#[derive(Debug)]
pub struct SaveRequest {
    pub config: AppConfig,
    pub token: TokenEntry,
}

/// The settings before the configuration was loaded.
pub open spec fn initial() -> SettingsModel {
    SettingsModel {
        form: FormModel {
            token: TokenInputModel::Value(Some(Seq::empty())),
            poll_interval: Some("60"@),
            sub_rows: Seq::empty(),
        },
        saving: false,
        status: crate::view::shown("Loading configuration..."@, Flavor::Info),
        loaded: false,
    }
}

/// The settings after what came back of a load was taken in.
pub open spec fn load_finished(
    m: SettingsModel,
    result: Result<Response, AppError>,
) -> SettingsModel {
    match result {
        Ok(Response::Config(config)) => SettingsModel {
            form: form_of(config@),
            status: crate::view::hidden(m.status),
            loaded: true,
            ..m
        },
        Ok(response) => with_load_error(
            m,
            crate::wire::unexpected_response("Config"@, response).message,
        ),
        Err(e) => with_load_error(m, e.message@),
    }
}

/// The settings after a load failed.
pub open spec fn with_load_error(m: SettingsModel, message: Seq<char>) -> SettingsModel {
    SettingsModel {
        status: crate::view::shown("Error loading config: "@ + message, Flavor::Danger),
        loaded: true,
        ..m
    }
}

/// The settings after what came back of a save was taken in.
pub open spec fn save_finished(
    m: SettingsModel,
    result: Result<Response, AppError>,
) -> SettingsModel {
    SettingsModel {
        saving: false,
        status: match result {
            Ok(Response::Done) => crate::view::shown("Settings saved."@, Flavor::Success),
            Ok(response) => crate::view::shown(
                "Failed to save: "@ + crate::wire::unexpected_response("Ok"@, response).message,
                Flavor::Danger,
            ),
            Err(e) => crate::view::shown("Failed to save: "@ + e.message@, Flavor::Danger),
        },
        ..m
    }
}

/// What the settings show after an action.
pub open spec fn acted(m: SettingsModel, action: SettingsAction) -> SettingsModel {
    match action {
        SettingsAction::Save => SettingsModel { saving: true, ..m },
        SettingsAction::AddSub => SettingsModel { form: with_empty_row(m.form), ..m },
        SettingsAction::RemoveSub(index) => SettingsModel {
            form: without_row(m.form, index),
            ..m
        },
    }
}

/// What is to be saved after an action, if anything: the configuration and the token of the form.
pub open spec fn asked_to_save(m: SettingsModel, action: SettingsAction) -> Option<
    (crate::wire::AppConfigModel, crate::config::TokenEntryModel),
> {
    match action {
        SettingsAction::Save => Some((config_in(m.form), token_in(m.form))),
        _ => None,
    }
}

/// What is sent before the view waits for an action.
pub open spec fn first_command(m: SettingsModel) -> Option<Command> {
    if m.loaded {
        None
    } else {
        Some(Command::GetConfig)
    }
}

fn or_empty(value: &Option<String>) -> (r: String)
    ensures
        r@ == value_or_empty(crate::wire::option_text(*value)),
{
    match value {
        Some(value) => value.clone(),
        None => String::new(),
    }
}

impl SubRow {
    /// The row for a subscription.
    pub fn new(kind: SubscriptionKind, name: &str) -> (r: Self)
        ensures
            r@ == sub_row(crate::wire::SubscriptionModel { kind, name: name@ }),
    {
        let value = match kind {
            SubscriptionKind::Org => "org",
            SubscriptionKind::Repo => "repo",
        };
        SubRow { kind: Some(value.to_owned()), name: Some(name.to_owned()) }
    }

    /// The subscription in the row; there is none where the name is empty.
    pub fn read_subscription(&self) -> (r: Option<Subscription>)
        ensures
            match r {
                Some(s) => subscription_in(self@) == Some(s@),
                None => subscription_in(self@) is None,
            },
    {
        let kind_str = or_empty(&self.kind);
        let name = or_empty(&self.name);
        if is_empty(name.as_str()) {
            return None;
        }
        let kind = if str_eq(kind_str.as_str(), "org") {
            SubscriptionKind::Org
        } else {
            SubscriptionKind::Repo
        };
        Some(Subscription { kind, name })
    }
}

impl SettingsForm {
    /// The form for a loaded configuration.
    pub fn of_config(config: &AppConfig) -> (r: Self)
        ensures
            r@ == form_of(config@),
    {
        let mut sub_rows: Vec<SubRow> = Vec::new();
        let ghost rows = form_of(config@).sub_rows;
        let mut i: usize = 0;
        while i < config.subscriptions.len()
            invariant
                i <= config.subscriptions.len(),
                rows == form_of(config@).sub_rows,
                sub_row_models(sub_rows@) =~= rows.take(i as int),
            decreases config.subscriptions.len() - i,
        {
            let s = &config.subscriptions[i];
            let row = SubRow::new(s.kind, s.name.as_str());
            assert(row@ == rows[i as int]);
            let ghost before = sub_rows@;
            sub_rows.push(row);
            assert(sub_row_models(sub_rows@) =~= sub_row_models(before).push(row@));
            assert(rows.take(i + 1) =~= rows.take(i as int).push(row@));
            i = i + 1;
        }
        assert(rows.take(i as int) =~= rows);
        let token = if config.has_token {
            TokenInput::InUse
        } else {
            let empty = String::new();
            assert(empty@ =~= Seq::<char>::empty());
            TokenInput::Value(Some(empty))
        };
        let r = SettingsForm {
            token,
            poll_interval: Some(decimal_text(config.poll_interval_secs)),
            sub_rows,
        };
        r
    }

    /// Read the current form values into a configuration and a token.
    pub fn read_config(&self) -> (r: SaveRequest)
        ensures
            r.config@ == config_in(self@),
            r.token@ == token_in(self@),
    {
        let token = match &self.token {
            TokenInput::InUse => TokenEntry::InUse,
            TokenInput::Value(value) => {
                let token_str = or_empty(value);
                if is_empty(token_str.as_str()) {
                    TokenEntry::Entered(None)
                } else {
                    TokenEntry::Entered(Some(token_str))
                }
            },
        };
        let has_token = match &token {
            TokenEntry::Entered(None) => false,
            _ => true,
        };
        let poll_interval_secs: u64 = match &self.poll_interval {
            Some(text) => match parse_u64(text.as_str()) {
                Some(secs) => secs,
                None => DEFAULT_INTERVAL_SECS,
            },
            None => DEFAULT_INTERVAL_SECS,
        };
        let ghost rows = sub_row_models(self.sub_rows@);
        let mut subscriptions: Vec<Subscription> = Vec::new();
        let mut i: usize = 0;
        assert(crate::wire::subscription_models(subscriptions@) =~= subscriptions_in(rows.take(0)));
        while i < self.sub_rows.len()
            invariant
                i <= self.sub_rows.len(),
                rows == sub_row_models(self.sub_rows@),
                crate::wire::subscription_models(subscriptions@) == subscriptions_in(
                    rows.take(i as int),
                ),
            decreases self.sub_rows.len() - i,
        {
            assert(rows.take(i + 1).drop_last() =~= rows.take(i as int));
            assert(rows.take(i + 1).last() == self.sub_rows@[i as int]@);
            match self.sub_rows[i].read_subscription() {
                Some(s) => {
                    let ghost before = subscriptions@;
                    subscriptions.push(s);
                    assert(crate::wire::subscription_models(subscriptions@)
                        =~= crate::wire::subscription_models(before).push(s@));
                },
                None => {},
            }
            i = i + 1;
        }
        assert(rows.take(i as int) =~= rows);
        SaveRequest {
            config: AppConfig { poll_interval_secs, subscriptions, has_token },
            token,
        }
    }

    fn add_empty_sub_row(&mut self)
        ensures
            final(self)@ == with_empty_row(old(self)@),
    {
        let ghost before = self.sub_rows@;
        let row = SubRow::new(SubscriptionKind::Org, "");
        proof {
            reveal_strlit("");
            assert(""@ =~= Seq::<char>::empty());
        }
        self.sub_rows.push(row);
        assert(sub_row_models(self.sub_rows@) =~= sub_row_models(before).push(row@));
    }

    fn remove_sub_row(&mut self, index: usize)
        ensures
            final(self)@ == without_row(old(self)@, index),
    {
        if index < self.sub_rows.len() {
            let ghost before = self.sub_rows@;
            self.sub_rows.remove(index);
            assert(sub_row_models(self.sub_rows@) =~= sub_row_models(before).remove(
                index as int,
            ));
        }
    }
}

impl Default for SettingsView {
    fn default() -> (r: Self)
        ensures
            r@ == initial(),
    {
        let empty = String::new();
        assert(empty@ =~= Seq::<char>::empty());
        let r = SettingsView {
            form: SettingsForm {
                token: TokenInput::Value(Some(empty)),
                poll_interval: Some("60".to_owned()),
                sub_rows: Vec::new(),
            },
            saving: false,
            status_alert: Alert::new("Loading configuration...".to_owned(), Flavor::Info),
            loaded: false,
        };
        assert(r@.form.sub_rows =~= Seq::empty());
        r
    }
}

impl SettingsView {
    /// The settings before the configuration was loaded.
    pub fn new() -> (r: Self)
        ensures
            r@ == initial(),
    {
        Self::default()
    }

    /// The command to be sent before the view waits for an action, if any: what comes back is
    /// handed to [`SettingsView::finish_load`].
    pub fn start(&self) -> (r: Option<Command>)
        ensures
            r == first_command(self@),
    {
        if self.loaded {
            None
        } else {
            Some(Command::GetConfig)
        }
    }

    /// Takes in what came back of a load, and populates the form from it.
    pub fn finish_load(&mut self, result: Result<Response, AppError>)
        ensures
            final(self)@ == load_finished(old(self)@, result),
    {
        let config = match result {
            Ok(response) => response.into_config(),
            Err(e) => Err(e),
        };
        match config {
            Ok(config) => {
                self.form = SettingsForm::of_config(&config);
                self.status_alert.dismiss();
            },
            Err(e) => {
                let mut text = "Error loading config: ".to_owned();
                text.append(e.to_string().as_str());
                self.status_alert = Alert::new(text, Flavor::Danger);
            },
        }
        self.loaded = true;
    }

    /// What an action leads to: the view changes what it shows, and returns what is to be saved,
    /// if anything. How the save ended is handed to [`SettingsView::finish_save`].
    pub fn act(&mut self, action: SettingsAction) -> (r: Option<SaveRequest>)
        ensures
            final(self)@ == acted(old(self)@, action),
            match r {
                Some(request) => asked_to_save(old(self)@, action) == Some(
                    (request.config@, request.token@),
                ),
                None => asked_to_save(old(self)@, action) is None,
            },
    {
        match action {
            SettingsAction::Save => {
                let request = self.form.read_config();
                self.saving = true;
                Some(request)
            },
            SettingsAction::AddSub => {
                self.form.add_empty_sub_row();
                None
            },
            SettingsAction::RemoveSub(index) => {
                self.form.remove_sub_row(index);
                None
            },
        }
    }

    /// Takes in how a save ended.
    pub fn finish_save(&mut self, result: Result<Response, AppError>)
        ensures
            final(self)@ == save_finished(old(self)@, result),
    {
        let done = match result {
            Ok(response) => response.into_ok(),
            Err(e) => Err(e),
        };
        match done {
            Ok(_) => {
                self.status_alert = Alert::new("Settings saved.".to_owned(), Flavor::Success);
            },
            Err(e) => {
                let mut text = "Failed to save: ".to_owned();
                text.append(e.to_string().as_str());
                self.status_alert = Alert::new(text, Flavor::Danger);
            },
        }
        self.saving = false;
    }
}

/// The subscriptions that have a name.
pub open spec fn named(s: crate::wire::SubscriptionModel) -> bool {
    s.name.len() > 0
}

/// A configuration that is loaded and saved unchanged keeps its poll interval, and its
/// subscriptions but for those without a name, and leaves the token in use as it is.
pub proof fn unchanged_form_keeps_config(config: crate::wire::AppConfigModel)
    ensures
        interval_in(form_of(config)) == config.poll_interval_secs,
        config_in(form_of(config)).subscriptions == config.subscriptions.filter(
            |s: crate::wire::SubscriptionModel| named(s),
        ),
        config_in(form_of(config)).has_token == config.has_token,
        token_in(form_of(config)) == if config.has_token {
            crate::config::TokenEntryModel::InUse
        } else {
            crate::config::TokenEntryModel::Entered(None)
        },
{
    crate::text::parse_of_decimal(config.poll_interval_secs);
    rows_keep_subscriptions(config.subscriptions);
}

proof fn rows_keep_subscriptions(subscriptions: Seq<crate::wire::SubscriptionModel>)
    ensures
        subscriptions_in(
            subscriptions.map_values(|s: crate::wire::SubscriptionModel| sub_row(s)),
        ) == subscriptions.filter(|s: crate::wire::SubscriptionModel| named(s)),
    decreases subscriptions.len(),
{
    let f = |s: crate::wire::SubscriptionModel| sub_row(s);
    let p = |s: crate::wire::SubscriptionModel| named(s);
    reveal(Seq::filter);
    if subscriptions.len() > 0 {
        let front = subscriptions.drop_last();
        let last = subscriptions.last();
        rows_keep_subscriptions(front);
        front.lemma_filter_push(last, p);
        assert(front.push(last) =~= subscriptions);
        assert(subscriptions.map_values(f).drop_last() =~= front.map_values(f));
        reveal_strlit("org");
        reveal_strlit("repo");
        assert("org"@.len() != "repo"@.len());
        assert(named(last) ==> subscription_in(sub_row(last)) == Some(last));
    } else {
        assert(subscriptions.filter(p) =~= Seq::empty());
    }
}

/// An empty row adds nothing to the configuration.
pub proof fn empty_row_adds_nothing(form: FormModel)
    ensures
        config_in(with_empty_row(form)) == config_in(form),
        token_in(with_empty_row(form)) == token_in(form),
{
    assert(with_empty_row(form).sub_rows.drop_last() =~= form.sub_rows);
}

/// Removing the row that was added last takes the addition back.
pub proof fn remove_takes_back_add(form: FormModel, index: usize)
    requires
        index == form.sub_rows.len(),
    ensures
        without_row(with_empty_row(form), index) == form,
{
    assert(without_row(with_empty_row(form), index).sub_rows =~= form.sub_rows);
}

/// However a save ends, another can be tried, and what was entered is still there.
pub proof fn save_keeps_form(m: SettingsModel, result: Result<Response, AppError>)
    ensures
        save_finished(acted(m, SettingsAction::Save), result).form == m.form,
        !save_finished(acted(m, SettingsAction::Save), result).saving,
{
}

/// What is saved from the form is shown then: the interval and the subscriptions that the form
/// held, and a token exactly if one was entered, one was in use and left as it is, or the
/// environment has one.
pub proof fn saved_form_is_shown(
    stored: crate::config::RawConfigModel,
    form: FormModel,
    environment: Option<Seq<char>>,
)
    ensures
        ({
            let saved = crate::config::saved_config(
                stored,
                environment,
                config_in(form),
                token_in(form),
            );
            let shown = crate::config::shown_config(saved, environment);
            &&& shown.poll_interval_secs == config_in(form).poll_interval_secs
            &&& shown.subscriptions == config_in(form).subscriptions
            &&& shown.has_token <==> saved.token is Some || environment is Some
        }),
{
    let token = crate::config::saved_token(
        token_in(form),
        crate::config::resolved_token(stored.token, environment),
    );
    let config = crate::wire::AppConfigModel {
        has_token: token is Some || environment is Some,
        ..config_in(form)
    };
    crate::config::config_token_wins(token, environment);
    crate::config::shown_after_stored(config, token, environment);
}

/// A configuration that is loaded into the form and saved unchanged is stored with the token
/// that was in use, and otherwise as it was, where every subscription is of one of the two kinds
/// that a config file knows and has a name. So it is stored as it was, where its token is not
/// empty.
pub proof fn unchanged_settings_stay_stored(
    stored: crate::config::RawConfigModel,
    environment: Option<Seq<char>>,
)
    requires
        forall|i: int|
            0 <= i < stored.subscriptions.len() ==> (#[trigger] stored.subscriptions[i]).kind
                == "org"@ || stored.subscriptions[i].kind == "repo"@,
        forall|i: int|
            0 <= i < stored.subscriptions.len() ==> (
            #[trigger] stored.subscriptions[i]).name.len() > 0,
    ensures
        ({
            let form = form_of(crate::config::shown_config(stored, environment));
            let in_use = crate::config::resolved_token(stored.token, environment);
            let saved = crate::config::saved_config(
                stored,
                environment,
                config_in(form),
                token_in(form),
            );
            &&& saved == (crate::config::RawConfigModel {
                token: crate::config::token_of_text(value_or_empty(in_use)),
                ..stored
            })
            &&& stored.token is Some && stored.token->0.len() > 0 ==> saved == stored
        }),
{
    let shown = crate::config::shown_config(stored, environment);
    unchanged_form_keeps_config(shown);
    all_named(shown.subscriptions);
    crate::config::stored_after_shown(stored, environment);
}

/// Emptying the token input stores no token, whatever was in use, and entering one stores it.
pub proof fn entered_token_is_stored(
    stored: crate::config::RawConfigModel,
    environment: Option<Seq<char>>,
    form: FormModel,
    value: Seq<char>,
)
    requires
        form.token == TokenInputModel::Value(Some(value)),
    ensures
        crate::config::saved_config(
            stored,
            environment,
            config_in(form),
            token_in(form),
        ).token == if value.len() == 0 {
            None
        } else {
            Some(value)
        },
{
}

proof fn all_named(subscriptions: Seq<crate::wire::SubscriptionModel>)
    requires
        forall|i: int| 0 <= i < subscriptions.len() ==> named(#[trigger] subscriptions[i]),
    ensures
        subscriptions.filter(|s: crate::wire::SubscriptionModel| named(s)) == subscriptions,
    decreases subscriptions.len(),
{
    let p = |s: crate::wire::SubscriptionModel| named(s);
    reveal(Seq::filter);
    if subscriptions.len() > 0 {
        let front = subscriptions.drop_last();
        all_named(front);
        assert(named(subscriptions[subscriptions.len() - 1]));
        front.lemma_filter_push(subscriptions.last(), p);
        assert(front.push(subscriptions.last()) =~= subscriptions);
    } else {
        assert(subscriptions.filter(p) =~= subscriptions);
    }
}

/// A row with a name stands for a subscription of that name, to an org exactly if "org" is
/// selected. A row without a name, or with an empty one, stands for none.
pub proof fn named_rows_are_subscriptions(row: SubRowModel)
    ensures
        row.name is None ==> subscription_in(row) is None,
        row.name is Some && row.name->0.len() == 0 ==> subscription_in(row) is None,
        row.name is Some && row.name->0.len() > 0 ==> {
            &&& subscription_in(row) is Some
            &&& subscription_in(row)->0.name == row.name->0
            &&& subscription_in(row)->0.kind is Org <==> row.kind == Some(seq!['o', 'r', 'g'])
        },
{
    reveal_strlit("org");
    assert("org"@ =~= seq!['o', 'r', 'g']);
    assert("org"@.len() == 3);
}

/// The subscriptions of a form are those of its rows, in their order.
pub proof fn subscriptions_come_in_order(rows: Seq<SubRowModel>, row: SubRowModel)
    ensures
        subscriptions_in(Seq::empty()).len() == 0,
        row.name is Some && row.name->0.len() > 0 ==> subscriptions_in(rows.push(row)).len()
            == subscriptions_in(rows).len() + 1 && subscriptions_in(rows.push(row)).last().name
            == row.name->0 && (subscriptions_in(rows.push(row)).last().kind is Org <==> row.kind
            == Some(seq!['o', 'r', 'g'])) && subscriptions_in(rows.push(row)).drop_last()
            == subscriptions_in(rows),
        row.name is None || row.name->0.len() == 0 ==> subscriptions_in(rows.push(row))
            == subscriptions_in(rows),
{
    named_rows_are_subscriptions(row);
    assert(rows.push(row).drop_last() =~= rows);
    if row.name is Some && row.name->0.len() > 0 {
        assert(subscriptions_in(rows.push(row)).drop_last() =~= subscriptions_in(rows));
    }
}

/// The interval that a form holds is the number that is written in it. Where none is written, it
/// is sixty seconds.
pub proof fn intervals_are_read(form: FormModel, secs: u64)
    ensures
        form.poll_interval == Some(crate::text::decimal(secs as nat)) ==> config_in(
            form,
        ).poll_interval_secs == secs,
        form.poll_interval is None ==> config_in(form).poll_interval_secs == 60,
        form.poll_interval matches Some(text) && crate::text::parsed_u64(text) is None
            ==> config_in(form).poll_interval_secs == 60,
        form.poll_interval matches Some(text) && crate::text::parsed_u64(text) == Some(secs)
            ==> config_in(form).poll_interval_secs == secs,
{
    crate::text::parse_of_decimal(secs);
}

/// A form's token is what its input holds, or none where that is empty; where the input was left
/// as it is, it is the one in use. There is a token exactly if the input is not empty.
pub proof fn tokens_are_read(form: FormModel)
    ensures
        form.token is InUse ==> token_in(form) is InUse && config_in(form).has_token,
        form.token matches TokenInputModel::Value(Some(value)) ==> {
            &&& value.len() > 0 ==> token_in(form) == crate::config::TokenEntryModel::Entered(
                Some(value),
            ) && config_in(form).has_token
            &&& value.len() == 0 ==> token_in(form) == crate::config::TokenEntryModel::Entered(
                None,
            ) && !config_in(form).has_token
        },
        form.token matches TokenInputModel::Value(None) ==> token_in(form)
            == crate::config::TokenEntryModel::Entered(None) && !config_in(form).has_token,
{
}

/// A form for a configuration holds its interval as a number, each subscription in a row of its
/// own, in their order, and stands for the token in use exactly if there is one.
pub proof fn forms_show_the_configuration(config: crate::wire::AppConfigModel)
    ensures
        ({
            let form = form_of(config);
            &&& form.token is InUse <==> config.has_token
            &&& !config.has_token ==> (form.token matches TokenInputModel::Value(Some(value))
                && value.len() == 0)
            &&& form.poll_interval == Some(crate::text::decimal(config.poll_interval_secs as nat))
            &&& form.sub_rows.len() == config.subscriptions.len()
            &&& forall|i: int|
                0 <= i < config.subscriptions.len() ==> (#[trigger] form.sub_rows[i]).name == Some(
                    config.subscriptions[i].name,
                ) && form.sub_rows[i].kind == Some(
                    if config.subscriptions[i].kind is Org {
                        seq!['o', 'r', 'g']
                    } else {
                        seq!['r', 'e', 'p', 'o']
                    },
                )
        }),
{
    reveal_strlit("org");
    reveal_strlit("repo");
    assert("org"@ =~= seq!['o', 'r', 'g']);
    assert("repo"@ =~= seq!['r', 'e', 'p', 'o']);
}

/// To add a subscription puts a row behind the others, for an org without a name, and changes
/// nothing else.
pub proof fn a_row_is_added_at_the_end(m: SettingsModel)
    ensures
        ({
            let after = acted(m, SettingsAction::AddSub);
            let n = m.form.sub_rows.len() as int;
            &&& after.form.sub_rows.len() == n + 1
            &&& after.form.sub_rows.take(n) == m.form.sub_rows
            &&& after.form.sub_rows[n].kind == Some(seq!['o', 'r', 'g'])
            &&& after.form.sub_rows[n].name matches Some(name) && name.len() == 0
            &&& after.form.token == m.form.token
            &&& after.form.poll_interval == m.form.poll_interval
            &&& after.saving == m.saving
            &&& after.status == m.status
            &&& after.loaded == m.loaded
        }),
{
    reveal_strlit("org");
    assert("org"@ =~= seq!['o', 'r', 'g']);
    assert(acted(m, SettingsAction::AddSub).form.sub_rows.take(m.form.sub_rows.len() as int)
        =~= m.form.sub_rows);
}

/// To remove a subscription takes away the row at its place; those before it stay, those behind it
/// move up, and nothing else changes. Where there is no such row, nothing changes at all.
pub proof fn one_row_is_removed(m: SettingsModel, index: usize)
    ensures
        index >= m.form.sub_rows.len() ==> acted(m, SettingsAction::RemoveSub(index)) == m,
        index < m.form.sub_rows.len() ==> {
            let after = acted(m, SettingsAction::RemoveSub(index));
            &&& after.form.sub_rows.len() == m.form.sub_rows.len() - 1
            &&& forall|i: int|
                0 <= i < after.form.sub_rows.len() ==> #[trigger] after.form.sub_rows[i]
                    == m.form.sub_rows[if i < index {
                    i
                } else {
                    i + 1
                }]
            &&& after.form.token == m.form.token
            &&& after.form.poll_interval == m.form.poll_interval
            &&& after.saving == m.saving
            &&& after.status == m.status
            &&& after.loaded == m.loaded
        },
{
}

/// While a save goes on, only the button changes.
pub proof fn saving_disables_the_button(m: SettingsModel)
    ensures
        acted(m, SettingsAction::Save).saving,
        acted(m, SettingsAction::Save).form == m.form,
        acted(m, SettingsAction::Save).status == m.status,
        acted(m, SettingsAction::Save).loaded == m.loaded,
{
}

/// A loaded configuration fills the form, and the message is hidden.
pub proof fn a_load_fills_the_form(m: SettingsModel, config: AppConfig)
    ensures
        ({
            let after = load_finished(m, Ok(Response::Config(config)));
            &&& after.form == form_of(config@)
            &&& after.loaded
            &&& after.saving == m.saving
            &&& !after.status.is_visible
            &&& after.status.text == m.status.text
            &&& after.status.flavor == m.status.flavor
        }),
{
}

/// A load that fails, or brings something else, says so and leaves the form as it is. It is not
/// tried again.
pub proof fn a_failed_load_keeps_the_form(m: SettingsModel, result: Result<Response, AppError>)
    requires
        result matches Ok(response) ==> !(response is Config),
    ensures
        ({
            let after = load_finished(m, result);
            &&& after.form == m.form
            &&& after.saving == m.saving
            &&& after.loaded
            &&& first_command(after) is None
            &&& after.status.is_visible
            &&& after.status.flavor is Danger
            &&& result is Err ==> after.status.text == "Error loading config: "@
                + result->Err_0.message@
            &&& result is Ok ==> after.status.text == "Error loading config: "@
                + crate::wire::unexpected_response("Config"@, result->Ok_0).message
        }),
{
}

/// How a save ended is said: that it was done, or why it failed. Then the button can be used
/// again, and all else is as before.
pub proof fn the_end_of_a_save_is_told(m: SettingsModel, result: Result<Response, AppError>)
    ensures
        ({
            let after = save_finished(m, result);
            let done = result is Ok && result->Ok_0 is Done;
            &&& !after.saving
            &&& after.form == m.form
            &&& after.loaded == m.loaded
            &&& after.status.is_visible
            &&& done <==> after.status.flavor is Success
            &&& !done <==> after.status.flavor is Danger
            &&& done ==> after.status.text == "Settings saved."@
            &&& result is Err ==> after.status.text == "Failed to save: "@
                + result->Err_0.message@
            &&& result is Ok && !done ==> after.status.text == "Failed to save: "@
                + crate::wire::unexpected_response("Ok"@, result->Ok_0).message
        }),
{
}

/// New settings have loaded nothing, and ask for the configuration; settings that have loaded ask
/// for nothing.
pub proof fn new_settings_ask_for_the_configuration(m: SettingsModel)
    ensures
        first_command(initial()) == Some(Command::GetConfig),
        m.loaded <==> first_command(m) is None,
        !m.loaded ==> first_command(m) == Some(Command::GetConfig),
        !initial().loaded,
        !initial().saving,
        initial().form.sub_rows.len() == 0,
        initial().form.poll_interval == Some(crate::text::decimal(60)),
        initial().form.token matches TokenInputModel::Value(Some(value)) && value.len() == 0,
        initial().status.is_visible,
        initial().status.flavor is Info,
        initial().status.text == "Loading configuration..."@,
{
    reveal_strlit("60");
    reveal_with_fuel(crate::text::decimal, 2);
    assert(crate::text::decimal(60) =~= "60"@);
}

/// A form for a configuration shows it, and what is read of a form is what its inputs hold: the
/// interval, every subscription with a name, and the token, as far as it was edited.
pub proof fn forms_are_filled_and_read(
    config: &AppConfig,
    filled: SettingsForm,
    form: &SettingsForm,
    read: SaveRequest,
    secs: u64,
)
    requires
        call_ensures(SettingsForm::of_config, (config,), filled),
        call_ensures(SettingsForm::read_config, (form,), read),
    ensures
        filled.token is InUse <==> config.has_token,
        !config.has_token ==> (filled.token matches TokenInput::Value(Some(value))
            && value@.len() == 0),
        filled.poll_interval is Some,
        filled.poll_interval->0@ == crate::text::decimal(config.poll_interval_secs as nat),
        filled.sub_rows@.len() == config.subscriptions@.len(),
        forall|i: int|
            0 <= i < config.subscriptions@.len() ==> {
                let row = #[trigger] filled.sub_rows@[i];
                &&& row.name is Some
                &&& row.name->0@ == config.subscriptions@[i].name@
                &&& row.kind is Some
                &&& row.kind->0@ == if config.subscriptions@[i].kind is Org {
                    seq!['o', 'r', 'g']
                } else {
                    seq!['r', 'e', 'p', 'o']
                }
            },
        form.token is InUse ==> read.token is InUse && read.config.has_token,
        form.token matches TokenInput::Value(Some(value)) ==> {
            &&& value@.len() > 0 ==> read.config.has_token && (read.token matches
                TokenEntry::Entered(Some(token)) && token@ == value@)
            &&& value@.len() == 0 ==> !read.config.has_token && (read.token matches
                TokenEntry::Entered(None))
        },
        form.poll_interval is None ==> read.config.poll_interval_secs == 60,
        form.poll_interval is Some && form.poll_interval->0@ == crate::text::decimal(secs as nat)
            ==> read.config.poll_interval_secs == secs,
        read.config.subscriptions@.len() == subscriptions_in(form@.sub_rows).len(),
        forall|i: int|
            0 <= i < read.config.subscriptions@.len() ==> {
                let s = #[trigger] read.config.subscriptions@[i];
                &&& s.name@ == subscriptions_in(form@.sub_rows)[i].name
                &&& s.kind == subscriptions_in(form@.sub_rows)[i].kind
            },
{
    forms_show_the_configuration(config@);
    crate::wire::configurations_are_their_fields(*config);
    tokens_are_read(form@);
    intervals_are_read(form@, secs);
    crate::wire::configurations_are_their_fields(read.config);
    assert(filled@.sub_rows.len() == filled.sub_rows@.len());
    assert forall|i: int| 0 <= i < config.subscriptions@.len() implies ({
        let row = #[trigger] filled.sub_rows@[i];
        &&& row.name is Some
        &&& row.name->0@ == config.subscriptions@[i].name@
        &&& row.kind is Some
        &&& row.kind->0@ == if config.subscriptions@[i].kind is Org {
            seq!['o', 'r', 'g']
        } else {
            seq!['r', 'e', 'p', 'o']
        }
    }) by {
        assert(filled@.sub_rows[i] == filled.sub_rows@[i]@);
        assert(config@.subscriptions[i].name == config.subscriptions@[i].name@);
    }
}

/// What the settings show are their fields.
pub proof fn settings_are_their_fields(view: SettingsView)
    ensures
        view@.saving == view.saving,
        view@.loaded == view.loaded,
        view@.status.text == view.status_alert.text@,
        view@.status.flavor == view.status_alert.flavor,
        view@.status.is_visible == view.status_alert.is_visible,
        view@.form.token is InUse <==> view.form.token is InUse,
        view.form.token matches TokenInput::Value(Some(value)) ==> view@.form.token
            == TokenInputModel::Value(Some(value@)),
        view.form.poll_interval matches Some(text) ==> view@.form.poll_interval == Some(text@),
        view.form.poll_interval is None ==> view@.form.poll_interval is None,
        view@.form.sub_rows.len() == view.form.sub_rows@.len(),
        forall|i: int|
            0 <= i < view.form.sub_rows@.len() ==> {
                let row = #[trigger] view@.form.sub_rows[i];
                &&& row.name is Some <==> view.form.sub_rows@[i].name is Some
                &&& row.name is Some ==> row.name->0 == view.form.sub_rows@[i].name->0@
                &&& row.kind is Some <==> view.form.sub_rows@[i].kind is Some
                &&& row.kind is Some ==> row.kind->0 == view.form.sub_rows@[i].kind->0@
            },
{
}

/// Only a click on the save button has anything saved, and that is what the form holds then: its
/// interval, its subscriptions and what it says of the token.
pub proof fn only_save_saves(m: SettingsModel, action: SettingsAction)
    ensures
        action is Save <==> asked_to_save(m, action) is Some,
        action is Save ==> {
            let (config, token) = asked_to_save(m, action)->0;
            &&& config.poll_interval_secs == config_in(m.form).poll_interval_secs
            &&& config.subscriptions == subscriptions_in(m.form.sub_rows)
            &&& config.has_token <==> token != crate::config::TokenEntryModel::Entered(None)
            &&& m.form.token is InUse ==> token is InUse
            &&& m.form.token matches TokenInputModel::Value(Some(value)) ==> (value.len() > 0
                ==> token == crate::config::TokenEntryModel::Entered(Some(value))) && (value.len()
                == 0 ==> token == crate::config::TokenEntryModel::Entered(None))
        },
{
}

} // verus!
