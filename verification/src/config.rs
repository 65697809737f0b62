//! Configuration: what the config file says, what the frontend sees of it, and the token.

use crate::text::{is_empty, str_eq};
use crate::wire::{clone_option, AppConfig, Subscription, SubscriptionKind};
use vstd::prelude::*;

verus! {

/// The configuration that the application runs with.
#[derive(Debug)]
pub struct RawConfig {
    pub github: GitHubConfig,
}

#[derive(Debug)]
pub struct GitHubConfig {
    pub token: Option<String>,
    pub poll_interval_secs: u64,
    pub subscriptions: Vec<RawSubscription>,
}

#[derive(Debug)]
pub struct RawSubscription {
    pub kind: String,
    pub name: String,
}

impl Clone for RawSubscription {
    fn clone(&self) -> (r: Self)
        ensures
            r == *self,
    {
        RawSubscription { kind: self.kind.clone(), name: self.name.clone() }
    }
}

/// The contents of a configured subscription.
pub struct RawSubscriptionModel {
    pub kind: Seq<char>,
    pub name: Seq<char>,
}

impl View for RawSubscription {
    type V = RawSubscriptionModel;

    open spec fn view(&self) -> RawSubscriptionModel {
        RawSubscriptionModel { kind: self.kind@, name: self.name@ }
    }
}

/// The contents of each subscription of a list.
pub open spec fn raw_subscription_models(s: Seq<RawSubscription>) -> Seq<RawSubscriptionModel> {
    s.map_values(|s: RawSubscription| s@)
}

/// The contents of a configuration.
#[verifier::ext_equal]
pub struct RawConfigModel {
    pub token: Option<Seq<char>>,
    pub poll_interval_secs: u64,
    pub subscriptions: Seq<RawSubscriptionModel>,
}

impl View for RawConfig {
    type V = RawConfigModel;

    open spec fn view(&self) -> RawConfigModel {
        RawConfigModel {
            token: crate::wire::option_text(self.github.token),
            poll_interval_secs: self.github.poll_interval_secs,
            subscriptions: raw_subscription_models(self.github.subscriptions@),
        }
    }
}

/// The poll interval, in seconds, where the config file gives none.
pub fn default_poll_interval() -> (r: u64)
    ensures
        r == 60,
{
    60
}

/// The configuration of an application that has no config file.
pub open spec fn default_config() -> RawConfigModel {
    RawConfigModel { token: None, poll_interval_secs: 60, subscriptions: Seq::empty() }
}

impl Default for RawConfig {
    fn default() -> (r: Self)
        ensures
            r@ == default_config(),
    {
        RawConfig {
            github: GitHubConfig {
                token: None,
                poll_interval_secs: default_poll_interval(),
                subscriptions: Vec::new(),
            },
        }
    }
}

/// The entries of a config file's `github` table; each of them may be left out.
#[derive(Debug)]
pub struct ConfigFile {
    pub token: Option<String>,
    pub poll_interval_secs: Option<u64>,
    pub subscriptions: Option<Vec<RawSubscription>>,
}

/// What came of looking for the config file.
#[derive(Debug)]
pub enum ConfigRead {
    /// There is no config file.
    Missing,
    /// The file is there, but could not be read.
    Unreadable,
    /// The file was read, but does not parse.
    Malformed,
    /// The file was read and parsed.
    Parsed(ConfigFile),
}

/// The configuration that a config file stands for: an entry that is left out has its default.
pub open spec fn config_of_file(file: ConfigFile) -> RawConfigModel {
    RawConfigModel {
        token: crate::wire::option_text(file.token),
        poll_interval_secs: match file.poll_interval_secs {
            Some(secs) => secs,
            None => 60,
        },
        subscriptions: match file.subscriptions {
            Some(subscriptions) => raw_subscription_models(subscriptions@),
            None => Seq::empty(),
        },
    }
}

/// The configuration to run with: that of the file, where it was parsed.
pub open spec fn loaded_config(read: ConfigRead) -> RawConfigModel {
    match read {
        ConfigRead::Parsed(file) => config_of_file(file),
        _ => default_config(),
    }
}

/// The configuration to run with, falling back to defaults where the file is missing or of no
/// use.
pub fn load_config(read: ConfigRead) -> (r: RawConfig)
    ensures
        r@ == loaded_config(read),
{
    match read {
        ConfigRead::Parsed(file) => RawConfig {
            github: GitHubConfig {
                token: file.token,
                poll_interval_secs: match file.poll_interval_secs {
                    Some(secs) => secs,
                    None => default_poll_interval(),
                },
                subscriptions: match file.subscriptions {
                    Some(subscriptions) => subscriptions,
                    None => Vec::new(),
                },
            },
        },
        _ => RawConfig::default(),
    }
}

/// The token to use: that of the config file, or else that of the environment.
pub open spec fn resolved_token(
    configured: Option<Seq<char>>,
    environment: Option<Seq<char>>,
) -> Option<Seq<char>> {
    match configured {
        Some(token) => Some(token),
        None => environment,
    }
}

/// Resolve the GitHub token: config file value takes priority over the environment's.
pub fn resolve_token(config: &RawConfig, env_token: Option<String>) -> (r: Option<String>)
    ensures
        crate::wire::option_text(r) == resolved_token(
            config@.token,
            crate::wire::option_text(env_token),
        ),
{
    match clone_option(&config.github.token) {
        Some(token) => Some(token),
        None => env_token,
    }
}

/// The kind that the frontend shows for a configured kind: whatever is not an org is a repo.
pub open spec fn shown_kind(kind: Seq<char>) -> SubscriptionKind {
    if kind == "org"@ {
        SubscriptionKind::Org
    } else {
        SubscriptionKind::Repo
    }
}

/// What the frontend sees of a configured subscription.
pub open spec fn shown_subscription(s: RawSubscriptionModel) -> crate::wire::SubscriptionModel {
    crate::wire::SubscriptionModel { kind: shown_kind(s.kind), name: s.name }
}

/// What the frontend sees of a configuration.
pub open spec fn shown_config(
    config: RawConfigModel,
    environment: Option<Seq<char>>,
) -> crate::wire::AppConfigModel {
    crate::wire::AppConfigModel {
        poll_interval_secs: config.poll_interval_secs,
        subscriptions: config.subscriptions.map_values(
            |s: RawSubscriptionModel| shown_subscription(s),
        ),
        has_token: resolved_token(config.token, environment) is Some,
    }
}

/// Convert a RawConfig into the wire-type AppConfig for the frontend.
pub fn to_app_config(config: &RawConfig, env_token: Option<String>) -> (r: AppConfig)
    ensures
        r@ == shown_config(config@, crate::wire::option_text(env_token)),
{
    let token = resolve_token(config, env_token);
    let mut subscriptions: Vec<Subscription> = Vec::new();
    let mut i: usize = 0;
    while i < config.github.subscriptions.len()
        invariant
            i <= config.github.subscriptions.len(),
            subscriptions.len() == i,
            forall|j: int|
                0 <= j < i ==> #[trigger] subscriptions[j]@ == shown_subscription(
                    config.github.subscriptions[j]@,
                ),
        decreases config.github.subscriptions.len() - i,
    {
        let s = &config.github.subscriptions[i];
        let kind = if str_eq(s.kind.as_str(), "org") {
            SubscriptionKind::Org
        } else {
            SubscriptionKind::Repo
        };
        subscriptions.push(Subscription { kind, name: s.name.clone() });
        i = i + 1;
    }
    let r = AppConfig {
        poll_interval_secs: config.github.poll_interval_secs,
        subscriptions,
        has_token: token.is_some(),
    };
    assert(r@ =~= shown_config(config@, crate::wire::option_text(env_token)));
    r
}

/// The configured form of a subscription that the frontend shows.
pub open spec fn stored_subscription(s: crate::wire::SubscriptionModel) -> RawSubscriptionModel {
    RawSubscriptionModel { kind: crate::wire::subscription_kind_text(s.kind), name: s.name }
}

/// The configuration to save for what the frontend shows and the token entered there.
pub open spec fn stored_config(
    config: crate::wire::AppConfigModel,
    token: Option<Seq<char>>,
) -> RawConfigModel {
    RawConfigModel {
        token,
        poll_interval_secs: config.poll_interval_secs,
        subscriptions: config.subscriptions.map_values(
            |s: crate::wire::SubscriptionModel| stored_subscription(s),
        ),
    }
}

/// Convert a wire-type AppConfig, with the token that came beside it, back into a RawConfig
/// for saving.
pub fn from_app_config(app_config: &AppConfig, token: Option<String>) -> (r: RawConfig)
    ensures
        r@ == stored_config(app_config@, crate::wire::option_text(token)),
{
    let mut subscriptions: Vec<RawSubscription> = Vec::new();
    let mut i: usize = 0;
    while i < app_config.subscriptions.len()
        invariant
            i <= app_config.subscriptions.len(),
            subscriptions.len() == i,
            forall|j: int|
                0 <= j < i ==> #[trigger] subscriptions[j]@ == stored_subscription(
                    app_config.subscriptions[j]@,
                ),
        decreases app_config.subscriptions.len() - i,
    {
        let s = &app_config.subscriptions[i];
        subscriptions.push(RawSubscription { kind: s.kind.to_string(), name: s.name.clone() });
        i = i + 1;
    }
    let r = RawConfig {
        github: GitHubConfig {
            token,
            poll_interval_secs: app_config.poll_interval_secs,
            subscriptions,
        },
    };
    assert(r@ =~= stored_config(app_config@, crate::wire::option_text(token)));
    r
}

/// What the frontend says of the token when it saves. The frontend shows that there is a token
/// but does not know it, so it can only say that the token is the one in use.
#[derive(Debug)]
pub enum TokenEntry {
    /// What stands for the token in use was left as it is.
    InUse,
    /// The token was edited, to this one or to none.
    Entered(Option<String>),
}

/// The contents of a token entry.
pub enum TokenEntryModel {
    InUse,
    Entered(Option<Seq<char>>),
}

impl View for TokenEntry {
    type V = TokenEntryModel;

    open spec fn view(&self) -> TokenEntryModel {
        match *self {
            TokenEntry::InUse => TokenEntryModel::InUse,
            TokenEntry::Entered(token) => TokenEntryModel::Entered(
                crate::wire::option_text(token),
            ),
        }
    }
}

/// The token of a text: none, where the text is empty.
pub open spec fn token_of_text(text: Seq<char>) -> Option<Seq<char>> {
    if text.len() == 0 {
        None
    } else {
        Some(text)
    }
}

/// The token to save: the one in use, where it was left as it is, or else what was entered.
pub open spec fn saved_token(
    entry: TokenEntryModel,
    in_use: Option<Seq<char>>,
) -> Option<Seq<char>> {
    match entry {
        TokenEntryModel::InUse => match in_use {
            Some(token) => token_of_text(token),
            None => None,
        },
        TokenEntryModel::Entered(token) => token,
    }
}

/// The token to save: the one in use, where it was left as it is, or else what was entered, be
/// it none.
pub fn token_to_store(entry: TokenEntry, in_use: Option<String>) -> (r: Option<String>)
    ensures
        crate::wire::option_text(r) == saved_token(entry@, crate::wire::option_text(in_use)),
{
    match entry {
        TokenEntry::InUse => match in_use {
            Some(token) => if is_empty(token.as_str()) {
                None
            } else {
                Some(token)
            },
            None => None,
        },
        TokenEntry::Entered(token) => token,
    }
}

/// The configuration to save, where `stored` was in use until now.
pub open spec fn saved_config(
    stored: RawConfigModel,
    environment: Option<Seq<char>>,
    config: crate::wire::AppConfigModel,
    entry: TokenEntryModel,
) -> RawConfigModel {
    stored_config(config, saved_token(entry, resolved_token(stored.token, environment)))
}

/// The configuration to save, where `stored` was in use until now.
pub fn config_to_save(
    stored: &RawConfig,
    env_token: Option<String>,
    config: &AppConfig,
    entry: TokenEntry,
) -> (r: RawConfig)
    ensures
        r@ == saved_config(stored@, crate::wire::option_text(env_token), config@, entry@),
{
    from_app_config(config, token_to_store(entry, resolve_token(stored, env_token)))
}

/// The frontend never sees the token itself: configurations that differ in nothing but which
/// token they have look the same.
pub proof fn token_stays_hidden(
    config: RawConfigModel,
    environment: Option<Seq<char>>,
    other: Seq<char>,
)
    requires
        resolved_token(config.token, environment) is Some,
    ensures
        shown_config(RawConfigModel { token: Some(other), ..config }, environment) == shown_config(
            config,
            environment,
        ),
{
}

/// Saving what the frontend shows and showing it again changes nothing, where what is shown of
/// the token agrees with the token that was saved.
pub proof fn shown_after_stored(
    config: crate::wire::AppConfigModel,
    token: Option<Seq<char>>,
    environment: Option<Seq<char>>,
)
    requires
        config.has_token == (resolved_token(token, environment) is Some),
    ensures
        shown_config(stored_config(config, token), environment) == config,
{
    reveal_strlit("org");
    reveal_strlit("repo");
    assert("org"@.len() != "repo"@.len());
    assert(shown_config(stored_config(config, token), environment).subscriptions
        =~= config.subscriptions);
}

/// Showing a configuration and saving it with its own token keeps it, where every subscription
/// is of one of the two kinds that a config file knows.
pub proof fn stored_after_shown(config: RawConfigModel, environment: Option<Seq<char>>)
    requires
        forall|i: int|
            0 <= i < config.subscriptions.len() ==> (#[trigger] config.subscriptions[i]).kind
                == "org"@ || config.subscriptions[i].kind == "repo"@,
    ensures
        stored_config(shown_config(config, environment), config.token) == config,
{
    reveal_strlit("org");
    reveal_strlit("repo");
    assert("org"@.len() != "repo"@.len());
    assert(stored_config(shown_config(config, environment), config.token).subscriptions
        =~= config.subscriptions);
}

/// The config file's token wins over the environment's; the environment's is used only where
/// the file has none.
pub proof fn config_token_wins(configured: Option<Seq<char>>, environment: Option<Seq<char>>)
    ensures
        configured is Some ==> resolved_token(configured, environment) == configured,
        configured is None ==> resolved_token(configured, environment) == environment,
{
}

/// What a config file says is what the application runs with. An entry that is left out has its
/// default: no token, a poll every sixty seconds, no subscriptions.
pub proof fn parsed_files_are_followed(file: ConfigFile)
    ensures
        ({
            let config = loaded_config(ConfigRead::Parsed(file));
            &&& file.token is Some ==> config.token == Some(file.token->0@)
            &&& file.token is None ==> config.token is None
            &&& file.poll_interval_secs is Some ==> config.poll_interval_secs
                == file.poll_interval_secs->0
            &&& file.poll_interval_secs is None ==> config.poll_interval_secs == 60
            &&& file.subscriptions is None ==> config.subscriptions.len() == 0
            &&& file.subscriptions is Some ==> config.subscriptions.len()
                == file.subscriptions->0@.len()
            &&& file.subscriptions is Some ==> forall|i: int|
                0 <= i < file.subscriptions->0@.len() ==> (
                #[trigger] config.subscriptions[i]).kind == file.subscriptions->0@[i].kind@
                    && config.subscriptions[i].name == file.subscriptions->0@[i].name@
        }),
{
}

/// A config file that is missing, cannot be read or does not parse is as one in which every entry
/// is left out.
pub proof fn useless_files_are_as_empty_ones(read: ConfigRead)
    requires
        !(read is Parsed),
    ensures
        loaded_config(read).token is None,
        loaded_config(read).poll_interval_secs == 60,
        loaded_config(read).subscriptions.len() == 0,
        loaded_config(read) == loaded_config(
            ConfigRead::Parsed(
                ConfigFile { token: None, poll_interval_secs: None, subscriptions: None },
            ),
        ),
{
}

/// The contents of a configuration are its fields, with each subscription in its place.
pub proof fn raw_configurations_are_their_fields(c: RawConfig)
    ensures
        c.github.token is Some <==> c@.token is Some,
        c.github.token matches Some(token) ==> c@.token == Some(token@),
        c@.poll_interval_secs == c.github.poll_interval_secs,
        c@.subscriptions.len() == c.github.subscriptions@.len(),
        forall|i: int|
            0 <= i < c.github.subscriptions@.len() ==> (#[trigger] c@.subscriptions[i]).kind
                == c.github.subscriptions@[i].kind@ && c@.subscriptions[i].name
                == c.github.subscriptions@[i].name@,
{
}

/// The frontend sees every subscription, in their order and under its name, as one to an org
/// exactly if it is configured as such. It sees the interval, and a token exactly if the file or
/// the environment has one.
pub proof fn configurations_are_shown_whole(
    config: RawConfigModel,
    environment: Option<Seq<char>>,
)
    ensures
        ({
            let seen = shown_config(config, environment);
            &&& seen.poll_interval_secs == config.poll_interval_secs
            &&& seen.has_token <==> config.token is Some || environment is Some
            &&& seen.subscriptions.len() == config.subscriptions.len()
            &&& forall|i: int|
                0 <= i < config.subscriptions.len() ==> (#[trigger] seen.subscriptions[i]).name
                    == config.subscriptions[i].name && (seen.subscriptions[i].kind is Org
                    <==> config.subscriptions[i].kind == seq!['o', 'r', 'g'])
        }),
{
    reveal_strlit("org");
    assert("org"@ =~= seq!['o', 'r', 'g']);
}

/// Every subscription that the frontend shows is saved, in their order and under its name, as
/// "org" or "repo", and with it the interval and the given token.
pub proof fn configurations_are_stored_whole(
    config: crate::wire::AppConfigModel,
    token: Option<Seq<char>>,
)
    ensures
        ({
            let stored = stored_config(config, token);
            &&& stored.token == token
            &&& stored.poll_interval_secs == config.poll_interval_secs
            &&& stored.subscriptions.len() == config.subscriptions.len()
            &&& forall|i: int|
                0 <= i < config.subscriptions.len() ==> (#[trigger] stored.subscriptions[i]).name
                    == config.subscriptions[i].name && stored.subscriptions[i].kind == (
                if config.subscriptions[i].kind is Org {
                    seq!['o', 'r', 'g']
                } else {
                    seq!['r', 'e', 'p', 'o']
                })
        }),
{
    reveal_strlit("org");
    reveal_strlit("repo");
    assert("org"@ =~= seq!['o', 'r', 'g']);
    assert("repo"@ =~= seq!['r', 'e', 'p', 'o']);
}

/// A token that was edited is saved as it was entered, be it none. One that was left as it is, is
/// saved as it is in use: the file's, or else the environment's, but no empty one.
pub proof fn tokens_are_saved(
    stored: RawConfigModel,
    environment: Option<Seq<char>>,
    config: crate::wire::AppConfigModel,
    entered: Option<Seq<char>>,
)
    ensures
        saved_config(stored, environment, config, TokenEntryModel::Entered(entered)).token
            == entered,
        ({
            let kept = saved_config(stored, environment, config, TokenEntryModel::InUse).token;
            &&& stored.token matches Some(token) ==> (token.len() > 0 ==> kept == Some(token)) && (
            token.len() == 0 ==> kept is None)
            &&& stored.token is None && environment is Some && environment->0.len() > 0 ==> kept
                == environment
            &&& stored.token is None && (environment is None || environment->0.len() == 0)
                ==> kept is None
        }),
        saved_config(stored, environment, config, TokenEntryModel::InUse).poll_interval_secs
            == config.poll_interval_secs,
        saved_config(
            stored,
            environment,
            config,
            TokenEntryModel::Entered(entered),
        ).poll_interval_secs == config.poll_interval_secs,
        saved_config(stored, environment, config, TokenEntryModel::InUse).subscriptions
            == stored_config(config, None).subscriptions,
        saved_config(stored, environment, config, TokenEntryModel::Entered(entered)).subscriptions
            == stored_config(config, None).subscriptions,
{
}

/// The configuration to save has the interval and the subscriptions that the frontend shows. Its
/// token is the one that was entered, if any; where the token was left as it is, the file's or
/// else the environment's, if it is not empty.
pub proof fn what_is_shown_is_saved(
    stored: &RawConfig,
    env_token: Option<String>,
    config: &AppConfig,
    entry: TokenEntry,
    saved: RawConfig,
)
    requires
        call_ensures(config_to_save, (stored, env_token, config, entry), saved),
    ensures
        saved.github.poll_interval_secs == config.poll_interval_secs,
        saved.github.subscriptions@.len() == config.subscriptions@.len(),
        forall|i: int|
            0 <= i < config.subscriptions@.len() ==> (
            #[trigger] saved.github.subscriptions@[i]).name@ == config.subscriptions@[i].name@ && (
            config.subscriptions@[i].kind is Org <==> saved.github.subscriptions@[i].kind@ == seq![
                'o',
                'r',
                'g',
            ]) && (config.subscriptions@[i].kind is Repo <==> saved.github.subscriptions@[i].kind@
                == seq!['r', 'e', 'p', 'o']),
        entry matches TokenEntry::Entered(Some(token)) ==> saved.github.token is Some
            && saved.github.token->0@ == token@,
        entry matches TokenEntry::Entered(None) ==> saved.github.token is None,
        entry is InUse && stored.github.token is Some && stored.github.token->0@.len() > 0
            ==> saved.github.token is Some && saved.github.token->0@ == stored.github.token->0@,
        entry is InUse && stored.github.token is None && env_token is Some && env_token->0@.len()
            > 0 ==> saved.github.token is Some && saved.github.token->0@ == env_token->0@,
{
    let environment = crate::wire::option_text(env_token);
    let entered = match entry {
        TokenEntry::Entered(token) => crate::wire::option_text(token),
        TokenEntry::InUse => None,
    };
    tokens_are_saved(stored@, environment, config@, entered);
    configurations_are_stored_whole(config@, saved@.token);
    raw_configurations_are_their_fields(saved);
    raw_configurations_are_their_fields(*stored);
    crate::wire::configurations_are_their_fields(*config);
    assert(saved@ == stored_config(config@, saved@.token));
    assert forall|i: int| 0 <= i < config.subscriptions@.len() implies (
    #[trigger] saved.github.subscriptions@[i]).name@ == config.subscriptions@[i].name@ && (
    config.subscriptions@[i].kind is Org <==> saved.github.subscriptions@[i].kind@ == seq![
        'o',
        'r',
        'g',
    ]) && (config.subscriptions@[i].kind is Repo <==> saved.github.subscriptions@[i].kind@ == seq![
        'r',
        'e',
        'p',
        'o',
    ]) by {
        assert(saved@.subscriptions[i].name == saved.github.subscriptions@[i].name@);
        assert(config@.subscriptions[i].name == config.subscriptions@[i].name@);
        assert(seq!['o', 'r', 'g'].len() != seq!['r', 'e', 'p', 'o'].len());
    }
}

/// A configuration is loaded as the file says it, or with the defaults.
pub proof fn configurations_are_loaded(read: ConfigRead, config: RawConfig)
    requires
        call_ensures(load_config, (read,), config),
    ensures
        !(read is Parsed) ==> config.github.token is None && config.github.poll_interval_secs == 60
            && config.github.subscriptions@.len() == 0,
        read matches ConfigRead::Parsed(file) ==> {
            &&& config.github.token is Some <==> file.token is Some
            &&& file.token is Some ==> config.github.token->0@ == file.token->0@
            &&& file.poll_interval_secs is Some ==> config.github.poll_interval_secs
                == file.poll_interval_secs->0
            &&& file.poll_interval_secs is None ==> config.github.poll_interval_secs == 60
            &&& file.subscriptions is None ==> config.github.subscriptions@.len() == 0
            &&& file.subscriptions is Some ==> config.github.subscriptions@.len()
                == file.subscriptions->0@.len()
        },
{
    raw_configurations_are_their_fields(config);
    match read {
        ConfigRead::Parsed(file) => {
            parsed_files_are_followed(file);
        },
        _ => {
            useless_files_are_as_empty_ones(read);
        },
    }
}

} // verus!
