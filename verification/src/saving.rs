//! Saving over the portal, step by step: network credentials, which are tested
//! first, and whole forms, with a restart or without.
use vstd::prelude::*;

use crate::config;
use crate::config::{Config, ConfigError};
use crate::form;
use crate::form::parse_form;
use crate::html;
use crate::json;
use crate::portal;
use crate::portal::{
    finish_form, save_wifi_reply, take_form, test_reply, update_reply, WifiForm,
};
use crate::probe;
use crate::probe::TestResult;

verus! {

// ---------------------------------------------------------------------------
// Network credentials
// ---------------------------------------------------------------------------

/// How far saving network credentials has come.
pub enum SaveWifi {
    /// The saved password is to be recalled, because the form left it blank.
    Recalling(WifiForm),
    /// The credentials are to be tested.
    Testing(WifiForm),
    /// They passed; the configuration that they change is to be loaded.
    Loading(WifiForm),
    /// The configuration is to be written.
    Writing(Config),
    /// It is over; with the answer.
    Over(String),
}

/// How far saving network credentials has come, by what the texts hold.
pub enum SaveWifiView {
    Recalling(portal::WifiFormView),
    Testing(portal::WifiFormView),
    Loading(portal::WifiFormView),
    Writing(config::ConfigView),
    Over(Seq<char>),
}

impl View for SaveWifi {
    type V = SaveWifiView;

    open spec fn view(&self) -> SaveWifiView {
        match self {
            SaveWifi::Recalling(w) => SaveWifiView::Recalling(w@),
            SaveWifi::Testing(w) => SaveWifiView::Testing(w@),
            SaveWifi::Loading(w) => SaveWifiView::Loading(w@),
            SaveWifi::Writing(c) => SaveWifiView::Writing(c@),
            SaveWifi::Over(s) => SaveWifiView::Over(s@),
        }
    }
}

/// What happened while saving network credentials.
pub enum SaveWifiEvent {
    /// The configuration was loaded, or could not be.
    Loaded(Result<Option<Config>, ConfigError>),
    /// The credentials were tested.
    Tested(TestResult),
    /// The configuration was written, or could not be.
    Written(Result<(), ConfigError>),
}

/// What happened while saving network credentials, by what the texts hold.
pub enum SaveWifiEventView {
    Loaded(Result<Option<config::ConfigView>, config::ConfigErrorView>),
    Tested(probe::TestResultView),
    Written(Result<(), config::ConfigErrorView>),
}

impl View for SaveWifiEvent {
    type V = SaveWifiEventView;

    open spec fn view(&self) -> SaveWifiEventView {
        match self {
            SaveWifiEvent::Loaded(r) => SaveWifiEventView::Loaded(config::loaded_view(*r)),
            SaveWifiEvent::Tested(t) => SaveWifiEventView::Tested(t@),
            SaveWifiEvent::Written(r) => SaveWifiEventView::Written(config::outcome_view(*r)),
        }
    }
}

/// What is to be done next while saving network credentials.
pub enum SaveWifiAction<'a> {
    /// Load the configuration.
    Load,
    /// Test these credentials.
    Test(&'a WifiForm),
    /// Write this configuration.
    Write(&'a Config),
    /// Send this answer.
    Answer(&'a str),
}

/// What is to be done next while saving network credentials, by what the texts
/// hold.
pub enum SaveWifiActionView {
    Load,
    Test(portal::WifiFormView),
    Write(config::ConfigView),
    Answer(Seq<char>),
}

impl<'a> View for SaveWifiAction<'a> {
    type V = SaveWifiActionView;

    open spec fn view(&self) -> SaveWifiActionView {
        match self {
            SaveWifiAction::Load => SaveWifiActionView::Load,
            SaveWifiAction::Test(w) => SaveWifiActionView::Test(w@),
            SaveWifiAction::Write(c) => SaveWifiActionView::Write(c@),
            SaveWifiAction::Answer(s) => SaveWifiActionView::Answer(s@),
        }
    }
}

/// How saving the credentials of a form begins: not at all without a name, with
/// the saved password if the form left it blank, and else with the test.
pub open spec fn save_wifi_begin(w: portal::WifiFormView) -> SaveWifiView {
    if w.ssid.len() == 0 {
        SaveWifiView::Over(json::object_text(json::reply_parts(false, portal::SSID_MISSING@)))
    } else if w.password.len() == 0 {
        SaveWifiView::Recalling(w)
    } else {
        SaveWifiView::Testing(w)
    }
}

/// How far saving has come after an event. A failed test ends it. An event that
/// does not belong to the state changes nothing.
pub open spec fn save_wifi_next(s: SaveWifiView, ev: SaveWifiEventView) -> SaveWifiView {
    match (s, ev) {
        (SaveWifiView::Recalling(w), SaveWifiEventView::Loaded(saved)) => SaveWifiView::Testing(
            portal::with_saved_password(w, saved),
        ),
        (SaveWifiView::Testing(w), SaveWifiEventView::Tested(t)) => if t.ok {
            SaveWifiView::Loading(w)
        } else {
            SaveWifiView::Over(portal::test_answer(t))
        },
        (SaveWifiView::Loading(w), SaveWifiEventView::Loaded(saved)) => SaveWifiView::Writing(
            portal::with_credentials(w, saved),
        ),
        (SaveWifiView::Writing(_), SaveWifiEventView::Written(r)) => SaveWifiView::Over(
            portal::saved_reply(r, portal::WIFI_SAVED@),
        ),
        _ => s,
    }
}

/// What is to be done in a state.
pub open spec fn save_wifi_action(s: SaveWifiView) -> SaveWifiActionView {
    match s {
        SaveWifiView::Recalling(_) => SaveWifiActionView::Load,
        SaveWifiView::Testing(w) => SaveWifiActionView::Test(w),
        SaveWifiView::Loading(_) => SaveWifiActionView::Load,
        SaveWifiView::Writing(c) => SaveWifiActionView::Write(c),
        SaveWifiView::Over(s) => SaveWifiActionView::Answer(s),
    }
}

impl SaveWifi {
    /// Begins saving the credentials of a form body.
    pub fn begin(body: &str) -> (r: SaveWifi)
        ensures
            r@ == save_wifi_begin(portal::wifi_fields(form::form_fields(body@))),
    {
        let w = WifiForm::parse(body);
        if let Some(answer) = w.refused() {
            return SaveWifi::Over(answer);
        }
        if w.password.as_str().is_empty() {
            SaveWifi::Recalling(w)
        } else {
            SaveWifi::Testing(w)
        }
    }

    /// How far saving has come after an event.
    pub fn next(self, ev: SaveWifiEvent) -> (r: SaveWifi)
        ensures
            r@ == save_wifi_next(self@, ev@),
    {
        match (self, ev) {
            (SaveWifi::Recalling(w), SaveWifiEvent::Loaded(saved)) => SaveWifi::Testing(
                w.or_saved_password(&saved),
            ),
            (SaveWifi::Testing(w), SaveWifiEvent::Tested(t)) => if t.ok {
                SaveWifi::Loading(w)
            } else {
                SaveWifi::Over(test_reply(&t))
            },
            (SaveWifi::Loading(w), SaveWifiEvent::Loaded(saved)) => SaveWifi::Writing(
                w.applied_to(saved),
            ),
            (SaveWifi::Writing(_), SaveWifiEvent::Written(r)) => SaveWifi::Over(
                save_wifi_reply(&r),
            ),
            (state, _) => state,
        }
    }

    /// What is to be done next.
    pub fn action<'a>(&'a self) -> (r: SaveWifiAction<'a>)
        ensures
            r@ == save_wifi_action(self@),
    {
        match self {
            SaveWifi::Recalling(_) => SaveWifiAction::Load,
            SaveWifi::Testing(w) => SaveWifiAction::Test(w),
            SaveWifi::Loading(_) => SaveWifiAction::Load,
            SaveWifi::Writing(c) => SaveWifiAction::Write(c),
            SaveWifi::Over(s) => SaveWifiAction::Answer(s.as_str()),
        }
    }
}

// ---------------------------------------------------------------------------
// Whole forms, with a restart
// ---------------------------------------------------------------------------

/// How far saving a form with a restart has come.
pub enum SaveForm {
    /// The form was rejected; with the page that says why.
    Rejected(String),
    /// The form was taken; what it must not change is to be loaded.
    Taken(Config),
    /// The configuration is to be written.
    Writing(Config),
    /// It was written, and the node is to restart.
    Written,
    /// It cannot be used after all, and is dropped.
    Dropped(ConfigError),
    /// It could not be written.
    Failed(ConfigError),
}

/// How far saving a form with a restart has come, by what the texts hold.
pub enum SaveFormView {
    Rejected(Seq<char>),
    Taken(config::ConfigView),
    Writing(config::ConfigView),
    Written,
    Dropped(config::ConfigErrorView),
    Failed(config::ConfigErrorView),
}

impl View for SaveForm {
    type V = SaveFormView;

    open spec fn view(&self) -> SaveFormView {
        match self {
            SaveForm::Rejected(page) => SaveFormView::Rejected(page@),
            SaveForm::Taken(c) => SaveFormView::Taken(c@),
            SaveForm::Writing(c) => SaveFormView::Writing(c@),
            SaveForm::Written => SaveFormView::Written,
            SaveForm::Dropped(e) => SaveFormView::Dropped(e@),
            SaveForm::Failed(e) => SaveFormView::Failed(e@),
        }
    }
}

/// What happened while saving a form.
pub enum SaveFormEvent {
    /// The saved configuration was loaded, or could not be.
    Loaded(Result<Option<Config>, ConfigError>),
    /// The configuration was written, or could not be.
    Written(Result<(), ConfigError>),
}

/// What happened while saving a form, by what the texts hold.
pub enum SaveFormEventView {
    Loaded(Result<Option<config::ConfigView>, config::ConfigErrorView>),
    Written(Result<(), config::ConfigErrorView>),
}

impl View for SaveFormEvent {
    type V = SaveFormEventView;

    open spec fn view(&self) -> SaveFormEventView {
        match self {
            SaveFormEvent::Loaded(r) => SaveFormEventView::Loaded(config::loaded_view(*r)),
            SaveFormEvent::Written(r) => SaveFormEventView::Written(config::outcome_view(*r)),
        }
    }
}

/// What is to be done next while saving a form with a restart.
pub enum SaveFormAction<'a> {
    /// Do nothing more.
    Forget,
    /// Load the saved configuration.
    Load,
    /// Write this configuration.
    Write(&'a Config),
    /// Restart.
    Restart,
    /// Note this, and wait for another form.
    Wait(&'a ConfigError),
    /// End the portal with this.
    End(&'a ConfigError),
}

/// What is to be done next while saving a form with a restart, by what the texts
/// hold.
pub enum SaveFormActionView {
    Forget,
    Load,
    Write(config::ConfigView),
    Restart,
    Wait(config::ConfigErrorView),
    End(config::ConfigErrorView),
}

impl<'a> View for SaveFormAction<'a> {
    type V = SaveFormActionView;

    open spec fn view(&self) -> SaveFormActionView {
        match self {
            SaveFormAction::Forget => SaveFormActionView::Forget,
            SaveFormAction::Load => SaveFormActionView::Load,
            SaveFormAction::Write(c) => SaveFormActionView::Write(c@),
            SaveFormAction::Restart => SaveFormActionView::Restart,
            SaveFormAction::Wait(e) => SaveFormActionView::Wait(e@),
            SaveFormAction::End(e) => SaveFormActionView::End(e@),
        }
    }
}

/// How saving a form begins: it is taken if its pins can be used.
pub open spec fn save_form_begin(c: config::ConfigView) -> SaveFormView {
    match config::validation(c) {
        Ok(_) => SaveFormView::Taken(c),
        Err(e) => SaveFormView::Rejected(html::save_error_page(e.message())),
    }
}

/// How far saving has come after an event. An event that does not belong to the
/// state changes nothing.
pub open spec fn save_form_next(s: SaveFormView, ev: SaveFormEventView) -> SaveFormView {
    match (s, ev) {
        (SaveFormView::Taken(c), SaveFormEventView::Loaded(saved)) => {
            match portal::to_save(c, saved) {
                Ok(kept) => SaveFormView::Writing(kept),
                Err(e) => SaveFormView::Dropped(e),
            }
        },
        (SaveFormView::Writing(_), SaveFormEventView::Written(Ok(_))) => SaveFormView::Written,
        (SaveFormView::Writing(_), SaveFormEventView::Written(Err(e))) => SaveFormView::Failed(
            e,
        ),
        _ => s,
    }
}

/// The page that a form is answered with, before anything is done with it.
/// Later states have been answered already.
pub open spec fn save_form_answer(s: SaveFormView) -> Option<Seq<char>> {
    match s {
        SaveFormView::Rejected(page) => Some(page),
        SaveFormView::Taken(_) => Some(html::FORM_TAKEN_PAGE@),
        _ => None,
    }
}

/// What is to be done in a state, once the form is answered.
pub open spec fn save_form_action(s: SaveFormView) -> SaveFormActionView {
    match s {
        SaveFormView::Rejected(_) => SaveFormActionView::Forget,
        SaveFormView::Taken(_) => SaveFormActionView::Load,
        SaveFormView::Writing(c) => SaveFormActionView::Write(c),
        SaveFormView::Written => SaveFormActionView::Restart,
        SaveFormView::Dropped(e) => SaveFormActionView::Wait(e),
        SaveFormView::Failed(e) => SaveFormActionView::End(e),
    }
}

impl SaveForm {
    /// Takes or rejects a form body.
    pub fn begin(body: &str) -> (r: SaveForm)
        ensures
            r@ == save_form_begin(form::form_config(form::form_fields(body@))),
    {
        match take_form(body) {
            Ok(c) => SaveForm::Taken(c),
            Err(page) => SaveForm::Rejected(page),
        }
    }

    /// The page that the form is answered with: what is wrong with it, or that
    /// it was taken. Later states have been answered already.
    pub fn answer<'a>(&'a self) -> (r: Option<&'a str>)
        ensures
            match r {
                Some(page) => save_form_answer(self@) == Some(page@),
                None => save_form_answer(self@) is None,
            },
    {
        match self {
            SaveForm::Rejected(page) => Some(page.as_str()),
            SaveForm::Taken(_) => Some(html::FORM_TAKEN_PAGE),
            _ => None,
        }
    }

    /// How far saving has come after an event.
    pub fn next(self, ev: SaveFormEvent) -> (r: SaveForm)
        ensures
            r@ == save_form_next(self@, ev@),
    {
        match (self, ev) {
            (SaveForm::Taken(c), SaveFormEvent::Loaded(saved)) => match finish_form(c, &saved) {
                Ok(kept) => SaveForm::Writing(kept),
                Err(e) => SaveForm::Dropped(e),
            },
            (SaveForm::Writing(_), SaveFormEvent::Written(Ok(_))) => SaveForm::Written,
            (SaveForm::Writing(_), SaveFormEvent::Written(Err(e))) => SaveForm::Failed(e),
            (state, _) => state,
        }
    }

    /// What is to be done next.
    pub fn action<'a>(&'a self) -> (r: SaveFormAction<'a>)
        ensures
            r@ == save_form_action(self@),
    {
        match self {
            SaveForm::Rejected(_) => SaveFormAction::Forget,
            SaveForm::Taken(_) => SaveFormAction::Load,
            SaveForm::Writing(c) => SaveFormAction::Write(c),
            SaveForm::Written => SaveFormAction::Restart,
            SaveForm::Dropped(e) => SaveFormAction::Wait(e),
            SaveForm::Failed(e) => SaveFormAction::End(e),
        }
    }
}

// ---------------------------------------------------------------------------
// Whole forms, without a restart
// ---------------------------------------------------------------------------

/// How far saving a form without a restart has come.
pub enum Update {
    /// What the form must not change is to be loaded.
    Loading(Config),
    /// The configuration is to be written.
    Writing(Config),
    /// It is over; with the answer.
    Over(String),
}

/// How far saving a form without a restart has come, by what the texts hold.
pub enum UpdateView {
    Loading(config::ConfigView),
    Writing(config::ConfigView),
    Over(Seq<char>),
}

impl View for Update {
    type V = UpdateView;

    open spec fn view(&self) -> UpdateView {
        match self {
            Update::Loading(c) => UpdateView::Loading(c@),
            Update::Writing(c) => UpdateView::Writing(c@),
            Update::Over(s) => UpdateView::Over(s@),
        }
    }
}

/// What is to be done next while saving a form without a restart.
pub enum UpdateAction<'a> {
    /// Load the saved configuration.
    Load,
    /// Write this configuration.
    Write(&'a Config),
    /// Send this answer.
    Answer(&'a str),
}

/// What is to be done next while saving a form without a restart, by what the
/// texts hold.
pub enum UpdateActionView {
    Load,
    Write(config::ConfigView),
    Answer(Seq<char>),
}

impl<'a> View for UpdateAction<'a> {
    type V = UpdateActionView;

    open spec fn view(&self) -> UpdateActionView {
        match self {
            UpdateAction::Load => UpdateActionView::Load,
            UpdateAction::Write(c) => UpdateActionView::Write(c@),
            UpdateAction::Answer(s) => UpdateActionView::Answer(s@),
        }
    }
}

/// How far saving has come after an event. An event that does not belong to the
/// state changes nothing.
pub open spec fn update_next(s: UpdateView, ev: SaveFormEventView) -> UpdateView {
    match (s, ev) {
        (UpdateView::Loading(c), SaveFormEventView::Loaded(saved)) => {
            match portal::to_save(c, saved) {
                Ok(kept) => UpdateView::Writing(kept),
                Err(e) => UpdateView::Over(portal::saved_reply(Err(e), portal::FORM_SAVED@)),
            }
        },
        (UpdateView::Writing(_), SaveFormEventView::Written(r)) => UpdateView::Over(
            portal::saved_reply(r, portal::FORM_SAVED@),
        ),
        _ => s,
    }
}

/// What is to be done in a state.
pub open spec fn update_action(s: UpdateView) -> UpdateActionView {
    match s {
        UpdateView::Loading(_) => UpdateActionView::Load,
        UpdateView::Writing(c) => UpdateActionView::Write(c),
        UpdateView::Over(s) => UpdateActionView::Answer(s),
    }
}

impl Update {
    /// Begins saving a form body.
    pub fn begin(body: &str) -> (r: Update)
        ensures
            r@ == UpdateView::Loading(form::form_config(form::form_fields(body@))),
    {
        Update::Loading(parse_form(body))
    }

    /// How far saving has come after an event.
    pub fn next(self, ev: SaveFormEvent) -> (r: Update)
        ensures
            r@ == update_next(self@, ev@),
    {
        match (self, ev) {
            (Update::Loading(c), SaveFormEvent::Loaded(saved)) => match finish_form(c, &saved) {
                Ok(kept) => Update::Writing(kept),
                Err(e) => Update::Over(update_reply(&Err(e))),
            },
            (Update::Writing(_), SaveFormEvent::Written(r)) => Update::Over(update_reply(&r)),
            (state, _) => state,
        }
    }

    /// What is to be done next.
    pub fn action<'a>(&'a self) -> (r: UpdateAction<'a>)
        ensures
            r@ == update_action(self@),
    {
        match self {
            Update::Loading(_) => UpdateAction::Load,
            Update::Writing(c) => UpdateAction::Write(c),
            Update::Over(s) => UpdateAction::Answer(s.as_str()),
        }
    }
}

// ---------------------------------------------------------------------------
// Laws
// ---------------------------------------------------------------------------

/// How far saving the credentials of a form has come after several events.
pub open spec fn save_wifi_after(
    w: portal::WifiFormView,
    events: Seq<SaveWifiEventView>,
) -> SaveWifiView
    decreases events.len(),
{
    if events.len() == 0 {
        save_wifi_begin(w)
    } else {
        save_wifi_next(save_wifi_after(w, events.drop_last()), events.last())
    }
}

/// Whether event `i` is a test of exactly these credentials that succeeded.
pub open spec fn passed_at(
    w: portal::WifiFormView,
    events: Seq<SaveWifiEventView>,
    i: int,
    tested: portal::WifiFormView,
) -> bool {
    &&& 0 <= i < events.len()
    &&& save_wifi_action(save_wifi_after(w, events.take(i))) == SaveWifiActionView::Test(tested)
    &&& events[i] matches SaveWifiEventView::Tested(t) && t.ok
}

/// The credentials of a configuration.
pub open spec fn credentials_in(c: config::ConfigView) -> portal::WifiFormView {
    portal::WifiFormView { ssid: c.wifi_ssid, password: c.wifi_password }
}

/// A test that succeeded stays one, whatever happens later.
proof fn lemma_passed_stays(
    w: portal::WifiFormView,
    events: Seq<SaveWifiEventView>,
    i: int,
    tested: portal::WifiFormView,
)
    requires
        events.len() > 0,
        passed_at(w, events.drop_last(), i, tested),
    ensures
        passed_at(w, events, i, tested),
{
    assert(events.drop_last().take(i) =~= events.take(i));
    assert(events.drop_last()[i] == events[i]);
}

/// The configuration is loaded for a change only after a test of the credentials
/// succeeded, and written only with credentials whose test did.
proof fn lemma_written_were_tested(w: portal::WifiFormView, events: Seq<SaveWifiEventView>)
    ensures
        save_wifi_after(w, events) matches SaveWifiView::Loading(tested) ==> exists|i: int|
            passed_at(w, events, i, tested),
        save_wifi_after(w, events) matches SaveWifiView::Writing(c) ==> exists|i: int|
            passed_at(w, events, i, credentials_in(c)),
    decreases events.len(),
{
    if events.len() > 0 {
        let earlier = events.drop_last();
        let before = save_wifi_after(w, earlier);
        let after = save_wifi_after(w, events);
        assert(after == save_wifi_next(before, events.last()));
        lemma_written_were_tested(w, earlier);
        match (before, after) {
            (SaveWifiView::Testing(tested), SaveWifiView::Loading(loading)) => {
                assert(events.take(events.len() - 1) =~= earlier);
                assert(passed_at(w, events, events.len() - 1, loading));
            },
            (SaveWifiView::Loading(tested), SaveWifiView::Loading(loading)) => {
                let i = choose|i: int| passed_at(w, earlier, i, tested);
                lemma_passed_stays(w, events, i, tested);
                assert(passed_at(w, events, i, loading));
            },
            (SaveWifiView::Loading(tested), SaveWifiView::Writing(c)) => {
                let i = choose|i: int| passed_at(w, earlier, i, tested);
                lemma_passed_stays(w, events, i, tested);
                assert(passed_at(w, events, i, credentials_in(c)));
            },
            (SaveWifiView::Writing(c), SaveWifiView::Writing(_)) => {
                let i = choose|i: int| passed_at(w, earlier, i, credentials_in(c));
                lemma_passed_stays(w, events, i, credentials_in(c));
            },
            _ => {},
        }
    }
}

/// Whatever happens, network credentials are written only if a test of exactly
/// these credentials succeeded before.
pub proof fn written_credentials_were_tested(
    w: portal::WifiFormView,
    events: Seq<SaveWifiEventView>,
)
    ensures
        save_wifi_action(save_wifi_after(w, events)) matches SaveWifiActionView::Write(c)
            ==> exists|i: int| passed_at(w, events, i, credentials_in(c)),
{
    lemma_written_were_tested(w, events);
    if let SaveWifiActionView::Write(c) = save_wifi_action(save_wifi_after(w, events)) {
        assert(save_wifi_after(w, events) == SaveWifiView::Writing(c));
    }
}

/// If each successful test is the outcome of a WiFi test, network credentials are
/// written only if the network was joined in a test of exactly these credentials.
pub proof fn written_credentials_joined_the_network(
    w: portal::WifiFormView,
    events: Seq<SaveWifiEventView>,
    tests: Seq<Seq<probe::WifiTestEventView>>,
)
    requires
        tests.len() == events.len(),
        forall|i: int|
            0 <= i < events.len() ==> (#[trigger] events[i] matches SaveWifiEventView::Tested(t)
                ==> (t.ok ==> probe::wifi_test_after(tests[i]) == probe::WifiTestView::Over(t))),
    ensures
        save_wifi_action(save_wifi_after(w, events)) matches SaveWifiActionView::Write(c)
            ==> exists|i: int, j: int|
            passed_at(w, events, i, credentials_in(c)) && 0 <= j < tests[i].len()
                && probe::says_joined(#[trigger] tests[i][j]),
{
    written_credentials_were_tested(w, events);
    if let SaveWifiActionView::Write(c) = save_wifi_action(save_wifi_after(w, events)) {
        let i = choose|i: int| passed_at(w, events, i, credentials_in(c));
        assert(events[i] is Tested);
        probe::wifi_test_needs_the_network(tests[i]);
        let j = choose|j: int| 0 <= j < tests[i].len() && probe::says_joined(
            #[trigger] tests[i][j],
        );
        assert(probe::says_joined(tests[i][j]));
    }
}

/// A test that failed is answered with what it said, and nothing is written
/// whatever happens later.
pub proof fn failed_credentials_are_not_written(
    w: portal::WifiFormView,
    t: probe::TestResultView,
    ev: SaveWifiEventView,
)
    requires
        !t.ok,
    ensures
        ({
            let s = save_wifi_next(SaveWifiView::Testing(w), SaveWifiEventView::Tested(t));
            &&& save_wifi_action(s) == SaveWifiActionView::Answer(portal::test_answer(t))
            &&& save_wifi_next(s, ev) == s
        }),
{
}

/// An answer that tells a success is none that tells a failure.
proof fn lemma_answers_differ(a: Seq<char>, b: Seq<char>, said: Seq<char>, why: Seq<char>)
    requires
        json::read_object(a) == Some(json::reply_members(true, said)),
        json::read_object(b) == Some(json::reply_members(false, why)),
    ensures
        a != b,
{
    reveal_strlit("true");
    reveal_strlit("false");
    assert(json::reply_members(true, said)[0] != json::reply_members(false, why)[0]) by {
        assert(json::bool_text(true).len() != json::bool_text(false).len());
    }
}

/// Whether an event says that a write of credentials succeeded.
pub open spec fn wifi_write_succeeded(ev: SaveWifiEventView) -> bool {
    ev matches SaveWifiEventView::Written(Ok(_))
}

/// Whatever happens, credentials are answered as saved only if a write of them
/// succeeded.
pub proof fn wifi_success_follows_a_write(
    w: portal::WifiFormView,
    events: Seq<SaveWifiEventView>,
)
    ensures
        save_wifi_after(w, events) == SaveWifiView::Over(
            portal::saved_reply(Ok(()), portal::WIFI_SAVED@),
        ) ==> exists|i: int| 0 <= i < events.len() && wifi_write_succeeded(#[trigger] events[i]),
    decreases events.len(),
{
    let success = portal::saved_reply(Ok(()), portal::WIFI_SAVED@);
    let any = config::ConfigErrorView::Storage(Seq::empty());
    portal::save_wifi_answer_reads_back(any);
    if events.len() == 0 {
        portal::missing_ssid_reads_back();
        lemma_answers_differ(
            success,
            json::object_text(json::reply_parts(false, portal::SSID_MISSING@)),
            portal::WIFI_SAVED@,
            portal::SSID_MISSING@,
        );
    } else {
        let earlier = events.drop_last();
        wifi_success_follows_a_write(w, earlier);
        assert(forall|i: int| 0 <= i < earlier.len() ==> #[trigger] earlier[i] == events[i]);
        assert(events[events.len() - 1] == events.last());
        if let SaveWifiEventView::Tested(t) = events.last() {
            if !t.ok {
                portal::test_answer_reads_back(t);
                lemma_answers_differ(
                    success,
                    portal::test_answer(t),
                    portal::WIFI_SAVED@,
                    t.msg,
                );
            }
        }
        if let SaveWifiEventView::Written(Err(e)) = events.last() {
            portal::save_wifi_answer_reads_back(e);
            lemma_answers_differ(
                success,
                portal::saved_reply(Err(e), portal::WIFI_SAVED@),
                portal::WIFI_SAVED@,
                e.message(),
            );
        }
    }
}

/// Every form is answered: with what is wrong with its pins, or, exactly if they
/// can be used, with the page that says that it was taken.
pub proof fn every_form_is_answered(c: config::ConfigView)
    ensures
        save_form_answer(save_form_begin(c)) == Some(
            match config::validation(c) {
                Ok(_) => html::FORM_TAKEN_PAGE@,
                Err(e) => html::save_error_page(e.message()),
            },
        ),
        config::pins_usable(c) <==> save_form_begin(c) is Taken,
{
}

/// Nothing is written of a form that was rejected, whatever happens later.
pub proof fn rejected_form_is_forgotten(page: Seq<char>, ev: SaveFormEventView)
    ensures
        save_form_action(SaveFormView::Rejected(page)) is Forget,
        save_form_next(SaveFormView::Rejected(page), ev) == SaveFormView::Rejected(page),
{
}

/// How far saving a form has come after several events.
pub open spec fn save_form_after(
    c: config::ConfigView,
    events: Seq<SaveFormEventView>,
) -> SaveFormView
    decreases events.len(),
{
    if events.len() == 0 {
        save_form_begin(c)
    } else {
        save_form_next(save_form_after(c, events.drop_last()), events.last())
    }
}

/// Whether event `i` says that writing `kept` succeeded.
pub open spec fn written_at(
    c: config::ConfigView,
    events: Seq<SaveFormEventView>,
    i: int,
    kept: config::ConfigView,
) -> bool {
    &&& 0 <= i < events.len()
    &&& save_form_action(save_form_after(c, events.take(i))) == SaveFormActionView::Write(kept)
    &&& events[i] matches SaveFormEventView::Written(Ok(_))
}

/// Whether event `i` loaded the saved configuration that turned the form into
/// `kept`.
pub open spec fn kept_at(
    c: config::ConfigView,
    events: Seq<SaveFormEventView>,
    i: int,
    kept: config::ConfigView,
) -> bool {
    &&& 0 <= i < events.len()
    &&& events[i] matches SaveFormEventView::Loaded(saved) && portal::to_save(c, saved) == Ok::<
        config::ConfigView,
        config::ConfigErrorView,
    >(kept)
}

/// What holds of the states of saving a form.
proof fn lemma_save_form(c: config::ConfigView, events: Seq<SaveFormEventView>)
    ensures
        save_form_after(c, events) matches SaveFormView::Taken(t) ==> t == c
            && config::pins_usable(c),
        save_form_after(c, events) matches SaveFormView::Writing(kept) ==> exists|i: int|
            kept_at(c, events, i, kept),
        save_form_after(c, events) is Written ==> exists|i: int, kept: config::ConfigView|
            written_at(c, events, i, kept),
    decreases events.len(),
{
    if events.len() > 0 {
        let earlier = events.drop_last();
        let before = save_form_after(c, earlier);
        let last = events.len() - 1;
        lemma_save_form(c, earlier);
        assert(events.take(last) =~= earlier);
        if let SaveFormView::Taken(_) = before {
            if let SaveFormView::Writing(kept) = save_form_after(c, events) {
                assert(kept_at(c, events, last, kept));
            }
        }
        if let SaveFormView::Writing(kept) = before {
            let i = choose|i: int| kept_at(c, earlier, i, kept);
            assert(earlier[i] == events[i]);
            assert(kept_at(c, events, i, kept));
            if save_form_after(c, events) is Written {
                assert(written_at(c, events, last, kept));
            }
        }
        if before is Written {
            let (i, kept) = choose|i: int, kept: config::ConfigView|
                written_at(c, earlier, i, kept);
            assert(earlier.take(i) =~= events.take(i));
            assert(earlier[i] == events[i]);
            assert(written_at(c, events, i, kept));
        }
    }
}

/// Whatever happens, the node restarts only after a configuration was written
/// successfully.
pub proof fn restart_follows_a_write(c: config::ConfigView, events: Seq<SaveFormEventView>)
    ensures
        save_form_action(save_form_after(c, events)) is Restart ==> exists|
            i: int,
            kept: config::ConfigView,
        |
            written_at(c, events, i, kept),
{
    lemma_save_form(c, events);
}

/// Whatever happens, what is written of a form is the form with what it must not
/// change restored from what was loaded, and its pins can be used.
pub proof fn written_form_keeps_what_it_must(
    c: config::ConfigView,
    events: Seq<SaveFormEventView>,
)
    ensures
        save_form_action(save_form_after(c, events)) matches SaveFormActionView::Write(kept) ==> {
            &&& exists|i: int| kept_at(c, events, i, kept)
            &&& config::pins_usable(kept)
        },
{
    lemma_save_form(c, events);
    if let SaveFormActionView::Write(kept) = save_form_action(save_form_after(c, events)) {
        let i = choose|i: int| kept_at(c, events, i, kept);
        if let SaveFormEventView::Loaded(saved) = events[i] {
            portal::saved_forms_are_usable(c, saved);
        }
    }
}

/// A write that failed never leads to a restart.
pub proof fn failed_write_does_not_restart(
    kept: config::ConfigView,
    e: config::ConfigErrorView,
    ev: SaveFormEventView,
)
    ensures
        ({
            let s = save_form_next(
                SaveFormView::Writing(kept),
                SaveFormEventView::Written(Err(e)),
            );
            &&& save_form_action(s) == SaveFormActionView::End(e)
            &&& save_form_next(s, ev) == s
        }),
{
}

/// How far saving a form without a restart has come after several events.
pub open spec fn update_after(
    c: config::ConfigView,
    events: Seq<SaveFormEventView>,
) -> UpdateView
    decreases events.len(),
{
    if events.len() == 0 {
        UpdateView::Loading(c)
    } else {
        update_next(update_after(c, events.drop_last()), events.last())
    }
}

/// Whether an event says that a write of a form succeeded.
pub open spec fn write_succeeded(ev: SaveFormEventView) -> bool {
    ev matches SaveFormEventView::Written(Ok(_))
}

/// Whatever happens, what is written of a form without a restart is the form with
/// what it must not change restored from what was loaded, and its pins can be
/// used.
pub proof fn update_keeps_what_it_must(c: config::ConfigView, events: Seq<SaveFormEventView>)
    ensures
        update_after(c, events) matches UpdateView::Loading(t) ==> t == c,
        update_after(c, events) matches UpdateView::Writing(kept) ==> {
            &&& exists|i: int| kept_at(c, events, i, kept)
            &&& config::pins_usable(kept)
        },
    decreases events.len(),
{
    if events.len() > 0 {
        let earlier = events.drop_last();
        let before = update_after(c, earlier);
        let last = events.len() - 1;
        assert(update_after(c, events) == update_next(before, events.last()));
        assert(events[last] == events.last());
        update_keeps_what_it_must(c, earlier);
        match (before, update_after(c, events)) {
            (UpdateView::Loading(_), UpdateView::Writing(kept)) => {
                if let SaveFormEventView::Loaded(saved) = events.last() {
                    portal::saved_forms_are_usable(c, saved);
                }
                assert(kept_at(c, events, last, kept));
            },
            (UpdateView::Writing(kept), UpdateView::Writing(_)) => {
                let i = choose|i: int| kept_at(c, earlier, i, kept);
                assert(earlier[i] == events[i]);
                assert(kept_at(c, events, i, kept));
            },
            _ => {},
        }
    }
}

/// Whatever happens, a form is answered as saved only if a write of it succeeded.
pub proof fn update_success_follows_a_write(
    c: config::ConfigView,
    events: Seq<SaveFormEventView>,
)
    ensures
        update_after(c, events) == UpdateView::Over(
            portal::saved_reply(Ok(()), portal::FORM_SAVED@),
        ) ==> exists|i: int| 0 <= i < events.len() && write_succeeded(#[trigger] events[i]),
    decreases events.len(),
{
    let success = portal::saved_reply(Ok(()), portal::FORM_SAVED@);
    if events.len() > 0 {
        let earlier = events.drop_last();
        let before = update_after(c, earlier);
        update_success_follows_a_write(c, earlier);
        assert(forall|i: int| 0 <= i < earlier.len() ==> #[trigger] earlier[i] == events[i]);
        assert(events[events.len() - 1] == events.last());
        let failure = match (before, events.last()) {
            (UpdateView::Loading(form), SaveFormEventView::Loaded(saved)) => {
                match portal::to_save(form, saved) {
                    Ok(_) => None,
                    Err(e) => Some(e),
                }
            },
            (UpdateView::Writing(_), SaveFormEventView::Written(Err(e))) => Some(e),
            _ => None,
        };
        if let Some(e) = failure {
            portal::update_answer_reads_back(e);
            lemma_answers_differ(
                success,
                portal::saved_reply(Err(e), portal::FORM_SAVED@),
                portal::FORM_SAVED@,
                e.message(),
            );
        }
    }
}

/// The steps of saving credentials that come with a password: they are tested,
/// and if they pass, written over what is saved, or over the defaults if nothing
/// is; then the answer tells whether that worked.
pub proof fn good_credentials_are_saved(
    w: portal::WifiFormView,
    t: probe::TestResultView,
    saved: Result<Option<config::ConfigView>, config::ConfigErrorView>,
    r: Result<(), config::ConfigErrorView>,
)
    requires
        w.ssid.len() > 0,
        w.password.len() > 0,
        t.ok,
    ensures
        ({
            let tested = SaveWifiEventView::Tested(t);
            let loaded = SaveWifiEventView::Loaded(saved);
            let written = SaveWifiEventView::Written(r);
            let base = match saved {
                Ok(Some(s)) => s,
                _ => config::default_config(),
            };
            let does = |events: Seq<SaveWifiEventView>| save_wifi_action(save_wifi_after(w, events));
            &&& does(Seq::empty()) == SaveWifiActionView::Test(w)
            &&& does(seq![tested]) is Load
            &&& does(seq![tested, loaded]) == SaveWifiActionView::Write(
                config::ConfigView { wifi_ssid: w.ssid, wifi_password: w.password, ..base },
            )
            &&& does(seq![tested, loaded, written]) matches SaveWifiActionView::Answer(a)
                && json::read_object(a) == Some(
                match r {
                    Ok(_) => json::reply_members(true, portal::WIFI_SAVED@),
                    Err(e) => json::reply_members(false, e.message()),
                },
            )
        }),
{
    let tested = SaveWifiEventView::Tested(t);
    let loaded = SaveWifiEventView::Loaded(saved);
    let written = SaveWifiEventView::Written(r);
    let none = Seq::<SaveWifiEventView>::empty();
    assert(save_wifi_after(w, none) == SaveWifiView::Testing(w));
    assert(seq![tested].drop_last() =~= none);
    assert(save_wifi_after(w, seq![tested]) == SaveWifiView::Loading(w));
    assert(seq![tested, loaded].drop_last() =~= seq![tested]);
    assert(save_wifi_after(w, seq![tested, loaded]) is Writing);
    assert(seq![tested, loaded, written].drop_last() =~= seq![tested, loaded]);
    let e = match r {
        Ok(_) => config::ConfigErrorView::Storage(Seq::empty()),
        Err(e) => e,
    };
    portal::save_wifi_answer_reads_back(e);
    assert(save_wifi_after(w, seq![tested, loaded, written]) == SaveWifiView::Over(
        portal::saved_reply(r, portal::WIFI_SAVED@),
    ));
}

/// Credentials with a blank password are first completed with the saved one, if
/// there is one, and then tested; credentials without a name are not tested.
pub proof fn blank_password_is_completed_before_the_test(
    w: portal::WifiFormView,
    saved: config::ConfigView,
    e: config::ConfigErrorView,
)
    requires
        w.password.len() == 0,
    ensures
        w.ssid.len() == 0 ==> (save_wifi_action(save_wifi_begin(w)) matches SaveWifiActionView::Answer(
            a,
        ) && json::read_object(a) == Some(json::reply_members(false, portal::SSID_MISSING@))),
        w.ssid.len() > 0 ==> {
            let s = save_wifi_begin(w);
            let recalled = |r: Result<Option<config::ConfigView>, config::ConfigErrorView>|
                save_wifi_action(save_wifi_next(s, SaveWifiEventView::Loaded(r)));
            &&& save_wifi_action(s) is Load
            &&& recalled(Ok(Some(saved))) == SaveWifiActionView::Test(
                portal::WifiFormView { ssid: w.ssid, password: saved.wifi_password },
            )
            &&& recalled(Ok(None)) == SaveWifiActionView::Test(w)
            &&& recalled(Err(e)) == SaveWifiActionView::Test(w)
        },
{
    portal::missing_ssid_reads_back();
    assert(w.password =~= Seq::<char>::empty());
}

/// A failed test is answered with what it said.
pub proof fn failed_credentials_are_answered(
    w: portal::WifiFormView,
    t: probe::TestResultView,
)
    requires
        !t.ok,
    ensures
        save_wifi_action(
            save_wifi_next(SaveWifiView::Testing(w), SaveWifiEventView::Tested(t)),
        ) matches SaveWifiActionView::Answer(a) && json::read_object(a) == Some(
            json::reply_members(false, t.msg),
        ),
{
    portal::test_answer_reads_back(t);
}

/// What does not belong to the state changes nothing, in any kind of saving.
pub proof fn stray_events_do_not_disturb_saving(
    w: SaveWifiView,
    wifi_event: SaveWifiEventView,
    f: SaveFormView,
    u: UpdateView,
    form_event: SaveFormEventView,
)
    ensures
        match w {
            SaveWifiView::Recalling(_) => wifi_event is Loaded,
            SaveWifiView::Testing(_) => wifi_event is Tested,
            SaveWifiView::Loading(_) => wifi_event is Loaded,
            SaveWifiView::Writing(_) => wifi_event is Written,
            SaveWifiView::Over(_) => false,
        } || save_wifi_next(w, wifi_event) == w,
        match f {
            SaveFormView::Taken(_) => form_event is Loaded,
            SaveFormView::Writing(_) => form_event is Written,
            _ => false,
        } || save_form_next(f, form_event) == f,
        match u {
            UpdateView::Loading(_) => form_event is Loaded,
            UpdateView::Writing(_) => form_event is Written,
            UpdateView::Over(_) => false,
        } || update_next(u, form_event) == u,
{
}

/// The steps of saving a form with usable pins and a restart: it is taken, what
/// it must not change is loaded, the rest is written as submitted, and then the
/// node restarts, or the portal ends with what went wrong.
pub proof fn usable_form_is_saved(
    c: config::ConfigView,
    saved: Result<Option<config::ConfigView>, config::ConfigErrorView>,
    e: config::ConfigErrorView,
)
    requires
        config::pins_usable(c),
    ensures
        ({
            let loaded = SaveFormEventView::Loaded(saved);
            let kept = match saved {
                Ok(Some(s)) => config::ConfigView {
                    wifi_ssid: s.wifi_ssid,
                    wifi_password: s.wifi_password,
                    mqtt_password: if c.mqtt_password.len() == 0 {
                        s.mqtt_password
                    } else {
                        c.mqtt_password
                    },
                    ..c
                },
                _ => c,
            };
            let does = |events: Seq<SaveFormEventView>| save_form_action(save_form_after(c, events));
            &&& does(Seq::empty()) is Load
            &&& does(seq![loaded]) == SaveFormActionView::Write(kept)
            &&& does(seq![loaded, SaveFormEventView::Written(Ok(()))]) is Restart
            &&& does(seq![loaded, SaveFormEventView::Written(Err(e))]) == SaveFormActionView::End(
                e,
            )
        }),
{
    let loaded = SaveFormEventView::Loaded(saved);
    let good = SaveFormEventView::Written(Ok(()));
    let bad = SaveFormEventView::Written(Err(e));
    let none = Seq::<SaveFormEventView>::empty();
    assert(save_form_after(c, none) == SaveFormView::Taken(c));
    assert(seq![loaded].drop_last() =~= none);
    assert(save_form_after(c, seq![loaded]) is Writing);
    assert(seq![loaded, good].drop_last() =~= seq![loaded]);
    assert(seq![loaded, bad].drop_last() =~= seq![loaded]);
}

/// A form that was taken but turns out to be unusable is dropped, with what is
/// wrong with it, and the portal waits for another.
pub proof fn unusable_form_is_dropped(
    c: config::ConfigView,
    saved: Result<Option<config::ConfigView>, config::ConfigErrorView>,
)
    requires
        !config::pins_usable(c),
    ensures
        save_form_action(
            save_form_next(SaveFormView::Taken(c), SaveFormEventView::Loaded(saved)),
        ) matches SaveFormActionView::Wait(e) && config::validation(c) == Err::<
            (),
            config::ConfigErrorView,
        >(e),
{
}

/// The steps of saving a form without a restart: with usable pins it is written
/// as submitted but for what it must not change, and the answer tells whether
/// that worked; with unusable ones the answer tells what is wrong.
pub proof fn form_is_updated(
    c: config::ConfigView,
    saved: Result<Option<config::ConfigView>, config::ConfigErrorView>,
    r: Result<(), config::ConfigErrorView>,
)
    ensures
        ({
            let loaded = SaveFormEventView::Loaded(saved);
            let written = SaveFormEventView::Written(r);
            let kept = match saved {
                Ok(Some(s)) => config::ConfigView {
                    wifi_ssid: s.wifi_ssid,
                    wifi_password: s.wifi_password,
                    mqtt_password: if c.mqtt_password.len() == 0 {
                        s.mqtt_password
                    } else {
                        c.mqtt_password
                    },
                    ..c
                },
                _ => c,
            };
            let does = |events: Seq<SaveFormEventView>| update_action(update_after(c, events));
            &&& does(Seq::empty()) is Load
            &&& config::pins_usable(c) ==> {
                &&& does(seq![loaded]) == UpdateActionView::Write(kept)
                &&& does(seq![loaded, written]) matches UpdateActionView::Answer(a)
                    && json::read_object(a) == Some(
                    match r {
                        Ok(_) => json::reply_members(true, portal::FORM_SAVED@),
                        Err(e) => json::reply_members(false, e.message()),
                    },
                )
            }
            &&& !config::pins_usable(c) ==> (does(seq![loaded]) matches UpdateActionView::Answer(a)
                && config::validation(c) is Err && json::read_object(a) == Some(
                json::reply_members(false, config::validation(c)->Err_0.message()),
            ))
        }),
{
    let loaded = SaveFormEventView::Loaded(saved);
    let written = SaveFormEventView::Written(r);
    let none = Seq::<SaveFormEventView>::empty();
    assert(update_after(c, none) == UpdateView::Loading(c));
    assert(seq![loaded].drop_last() =~= none);
    if config::pins_usable(c) {
        assert(update_after(c, seq![loaded]) is Writing);
        assert(seq![loaded, written].drop_last() =~= seq![loaded]);
        let e = match r {
            Ok(_) => config::ConfigErrorView::Storage(Seq::empty()),
            Err(e) => e,
        };
        portal::update_answer_reads_back(e);
        assert(update_after(c, seq![loaded, written]) == UpdateView::Over(
            portal::saved_reply(r, portal::FORM_SAVED@),
        ));
    } else {
        portal::unusable_forms_are_rejected(c, saved);
        let e = config::validation(c)->Err_0;
        portal::update_answer_reads_back(e);
        assert(update_after(c, seq![loaded]) == UpdateView::Over(
            portal::saved_reply(Err(e), portal::FORM_SAVED@),
        ));
    }
}

} // verus!
