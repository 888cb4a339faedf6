//! The work beside the loop: what each of its outside steps leads to.
use vstd::prelude::*;
use vstd::string::*;

use crate::action::{Action, ActionView};
use crate::app::action_views;
use crate::auth::UnlockedKeys;
use crate::crypto::to_array32;
use crate::keymap::opt_text;
use crate::mode::Mode;
use crate::model::{Ed25519Pub, ListId, Member, MemberId, Role, X25519Pub};
use crate::text::joined;

verus! {

// ── Sharing ─────────────────────────────────────────────────────────────────

/// The public keys of a user, as the server gives them.
#[derive(Debug)]
pub struct UserPubkeysDto {
    pub member_id: [u8; 16],
    pub identity_pub: Vec<u8>,
    pub signing_pub: Vec<u8>,
}

/// What is wrong with a user's public keys.
#[derive(Clone, Copy, Debug, PartialEq, Eq, Structural)]
pub enum PubkeyError {
    Identity,
    Signing,
}

impl PubkeyError {
    /// What the error says.
    pub open spec fn text(self) -> Seq<char> {
        match self {
            PubkeyError::Identity => "bad identity key length"@,
            PubkeyError::Signing => "bad signing key length"@,
        }
    }

    /// What the error says.
    pub fn message(self) -> (r: &'static str)
        ensures
            r@ == self.text(),
    {
        match self {
            PubkeyError::Identity => "bad identity key length",
            PubkeyError::Signing => "bad signing key length",
        }
    }
}

/// The member that a user with these keys is. Keys of another length than 32 bytes are
/// refused, the identity key first.
pub fn resolved_member(dto: &UserPubkeysDto) -> (r: Result<Member, PubkeyError>)
    ensures
        dto.identity_pub@.len() != 32 ==> (r matches Err(e) && e == PubkeyError::Identity),
        dto.identity_pub@.len() == 32 && dto.signing_pub@.len() != 32 ==> (r matches Err(e) && e
            == PubkeyError::Signing),
        dto.identity_pub@.len() == 32 && dto.signing_pub@.len() == 32 ==> (r matches Ok(m)
            && m.id == MemberId(dto.member_id) && m.identity_pub.0@ == dto.identity_pub@
            && m.signing_pub.0@ == dto.signing_pub@ && m.role == Role::Member),
{
    let identity = match to_array32(dto.identity_pub.as_slice()) {
        Some(a) => a,
        None => {
            return Err(PubkeyError::Identity);
        },
    };
    let signing = match to_array32(dto.signing_pub.as_slice()) {
        Some(a) => a,
        None => {
            return Err(PubkeyError::Signing);
        },
    };
    Ok(
        Member {
            id: MemberId(dto.member_id),
            identity_pub: X25519Pub(identity),
            signing_pub: Ed25519Pub(signing),
            role: Role::Member,
        },
    )
}

fn error_action(start: &str, text: &str) -> (r: Action)
    ensures
        r@ == ActionView::Error(start@ + text@),
{
    Action::Error(joined(start, text))
}

/// What looking up a user leads to: the member is added, or an error is shown.
pub fn share_result(list_id: ListId, found: &Result<UserPubkeysDto, String>) -> (r: Action)
    ensures
        match *found {
            Err(e) => r@ == ActionView::Error("Share failed: "@ + e@),
            Ok(dto) => if dto.identity_pub@.len() != 32 {
                r@ == ActionView::Error(
                    "Invalid keys for user: "@ + PubkeyError::Identity.text(),
                )
            } else if dto.signing_pub@.len() != 32 {
                r@ == ActionView::Error("Invalid keys for user: "@ + PubkeyError::Signing.text())
            } else {
                r matches Action::AddResolvedMember { list_id: l, member } && l == list_id
                    && member.id == MemberId(dto.member_id) && member.identity_pub.0@
                    == dto.identity_pub@ && member.signing_pub.0@ == dto.signing_pub@
                    && member.role == Role::Member
            },
        },
{
    match found {
        Err(e) => error_action("Share failed: ", e.as_str()),
        Ok(dto) => match resolved_member(dto) {
            Ok(member) => Action::AddResolvedMember { list_id, member },
            Err(e) => error_action("Invalid keys for user: ", e.message()),
        },
    }
}

// ── Registering ─────────────────────────────────────────────────────────────

/// How a registration ended.
#[derive(Debug)]
pub enum Registered {
    /// The account is on the server and on this device.
    Saved,
    /// The account is on the server only.
    Unsaved(String),
    Failed(String),
}

/// What a registration leads to.
pub fn register_result(end: &Registered) -> (r: Vec<Action>)
    ensures
        action_views(r@) == (match *end {
            Registered::Saved => seq![
                ActionView::StopCapture,
                ActionView::CloseModal,
                ActionView::SetMode(Mode::Home),
            ],
            Registered::Unsaved(e) => seq![ActionView::Error("Could not save account: "@ + e@)],
            Registered::Failed(e) => seq![ActionView::Error("Registration failed: "@ + e@)],
        }),
{
    let mut v: Vec<Action> = Vec::new();
    match end {
        Registered::Saved => {
            v.push(Action::StopCapture);
            v.push(Action::CloseModal);
            v.push(Action::SetMode(Mode::Home));
        },
        Registered::Unsaved(e) => v.push(error_action("Could not save account: ", e.as_str())),
        Registered::Failed(e) => v.push(error_action("Registration failed: ", e.as_str())),
    }
    proof {
        assert(action_views(v@) =~= (match *end {
            Registered::Saved => seq![
                ActionView::StopCapture,
                ActionView::CloseModal,
                ActionView::SetMode(Mode::Home),
            ],
            Registered::Unsaved(e) => seq![ActionView::Error("Could not save account: "@ + e@)],
            Registered::Failed(e) => seq![ActionView::Error("Registration failed: "@ + e@)],
        }));
    }
    v
}

// ── The device's own key ────────────────────────────────────────────────────

/// What stands in the way of unlocking with the device's own key, if anything: first a
/// missing cache, then a missing identity.
pub fn device_unlock_obstacle(cached: bool, identity: &Option<String>) -> (r: Option<&'static str>)
    ensures
        (match r {
            Some(s) => Some(s@),
            None => None,
        }) == (if !cached {
            Some("no device cache on this device"@)
        } else if identity is None {
            Some("no device-unlock identity configured"@)
        } else {
            None
        }),
{
    if !cached {
        Some("no device cache on this device")
    } else if identity.is_none() {
        Some("no device-unlock identity configured")
    } else {
        None
    }
}

/// What unlocking with the device's own key leads to: the workspace, or the question
/// for the password.
pub open spec fn device_unlocked(end: Result<UnlockedKeys, String>) -> Seq<ActionView> {
    match end {
        Ok(k) => seq![ActionView::Keys(k), ActionView::SetMode(Mode::Home)],
        Err(e) => seq![
            ActionView::Error("Device unlock failed: "@ + e@),
            ActionView::UnlockModal,
        ],
    }
}

/// What unlocking with the device's own key leads to.
pub fn device_unlock_result(end: &Result<UnlockedKeys, String>) -> (r: Vec<Action>)
    ensures
        action_views(r@) == device_unlocked(*end),
{
    let mut v: Vec<Action> = Vec::new();
    match end {
        Ok(k) => {
            v.push(Action::Keys(k.copy()));
            v.push(Action::SetMode(Mode::Home));
        },
        Err(e) => {
            v.push(error_action("Device unlock failed: ", e.as_str()));
            v.push(Action::UnlockModal);
        },
    }
    proof {
        assert(action_views(v@) =~= device_unlocked(*end));
    }
    v
}

// ── Logging in ──────────────────────────────────────────────────────────────

/// The step that a login waits for.
#[derive(Clone, Copy, Debug, PartialEq, Eq, Structural)]
pub enum LoginStage {
    /// Reading the account of this device.
    Loading,
    /// Asking the server.
    LoggingIn,
    /// Sealing an account for this device.
    Sealing,
    /// Storing that account.
    Saving,
    /// Reading whether the device is enrolled.
    CheckingDevice,
    /// Enrolling the device.
    Enrolling,
    /// Storing the device's cache.
    SavingDevice,
    Over,
}

/// A login in progress.
#[derive(Debug)]
pub struct LoginTask {
    pub stage: LoginStage,
    /// Whether the device may be unlocked with its own key.
    pub enabled: bool,
    /// The device key to seal to.
    pub recipient: Option<String>,
    /// Whether this device has an account.
    pub known: bool,
    pub keys: Option<UnlockedKeys>,
}

/// Why an account could not be sealed for this device.
#[derive(Debug)]
pub enum SealFailure {
    Refused(String),
    Panicked(String),
}

/// What a login that went through ends with.
pub open spec fn farewell(keys: UnlockedKeys) -> Seq<ActionView> {
    seq![
        ActionView::Keys(keys),
        ActionView::StopCapture,
        ActionView::CloseModal,
        ActionView::SetMode(Mode::Home),
    ]
}

/// Where a login is, and the actions of the step that led there.
pub ghost struct LoginStep {
    pub stage: LoginStage,
    pub actions: Seq<ActionView>,
}

/// What a login waited for.
#[allow(inconsistent_fields)]
pub ghost enum LoginEvent {
    /// Whether this device has an account; or why that could not be read.
    AccountRead(Result<bool, Seq<char>>),
    /// The keys that the server or this device's account gave; or why there are none.
    LoggedIn(Result<UnlockedKeys, Seq<char>>),
    /// An account was sealed; or why it was not.
    Sealed(Option<(Seq<char>, bool)>),
    /// The account was stored; or why it was not.
    Saved(Option<Seq<char>>),
    /// Whether the device is enrolled.
    DeviceChecked(bool),
    /// The device was enrolled; or why it was not.
    Enrolled(Option<Seq<char>>),
    /// The device's cache was stored; or why it was not.
    DeviceSaved(Option<Seq<char>>),
}

/// The error text of an optional failure.
pub open spec fn complaint(start: Seq<char>, e: Option<Seq<char>>) -> Seq<ActionView> {
    match e {
        Some(e) => seq![ActionView::Error(start + e)],
        None => Seq::empty(),
    }
}

/// What was read, or what the failure says.
pub open spec fn read_text(read: Result<bool, String>) -> Result<bool, Seq<char>> {
    match read {
        Ok(b) => Ok(b),
        Err(e) => Err(e@),
    }
}

/// The keys, or what the failure says.
pub open spec fn keys_text(got: Result<UnlockedKeys, String>) -> Result<UnlockedKeys, Seq<char>> {
    match got {
        Ok(k) => Ok(k),
        Err(e) => Err(e@),
    }
}

/// What a failure to seal says, and whether it was a panic.
pub open spec fn seal_text(end: Result<(), SealFailure>) -> Option<(Seq<char>, bool)> {
    match end {
        Ok(_) => None,
        Err(SealFailure::Refused(e)) => Some((e@, false)),
        Err(SealFailure::Panicked(e)) => Some((e@, true)),
    }
}

impl LoginTask {
    /// From the server's answer on, there are keys.
    pub open spec fn wf(&self) -> bool {
        !(self.stage is Loading) && !(self.stage is LoggingIn) && !(self.stage is Over)
            ==> self.keys is Some
    }

    /// The end of a login, after the actions of its last step.
    pub open spec fn over(self, before: Seq<ActionView>) -> LoginStep {
        LoginStep { stage: LoginStage::Over, actions: before + farewell(self.keys->0) }
    }

    /// What follows once the account of this device is settled: the device is enrolled
    /// where that is wanted and the server was asked.
    pub open spec fn settled(self, before: Seq<ActionView>) -> LoginStep {
        if self.enabled && (self.keys->0).token@.len() > 0 {
            LoginStep { stage: LoginStage::CheckingDevice, actions: before }
        } else {
            self.over(before)
        }
    }

    /// The task is as before but for its stage.
    pub open spec fn moved_to(self, next: LoginTask, stage: LoginStage) -> bool {
        next.stage == stage && next.enabled == self.enabled && next.recipient == self.recipient
            && next.known == self.known && next.keys == self.keys
    }

    /// What an event leads to.
    pub open spec fn stepped(self, event: LoginEvent) -> LoginStep {
        let none = Seq::<ActionView>::empty();
        match event {
            LoginEvent::AccountRead(Ok(_)) => LoginStep {
                stage: LoginStage::LoggingIn,
                actions: none,
            },
            LoginEvent::AccountRead(Err(e)) => LoginStep {
                stage: LoginStage::Over,
                actions: complaint("Database error: "@, Some(e)),
            },
            LoginEvent::LoggedIn(Ok(keys)) => if self.known {
                (LoginTask { keys: Some(keys), ..self }).settled(none)
            } else {
                LoginStep { stage: LoginStage::Sealing, actions: none }
            },
            LoginEvent::LoggedIn(Err(e)) => LoginStep {
                stage: LoginStage::Over,
                actions: complaint("Login failed: "@, Some(e)),
            },
            LoginEvent::Sealed(None) => LoginStep { stage: LoginStage::Saving, actions: none },
            LoginEvent::Sealed(Some((e, panicked))) => self.settled(
                complaint(
                    if panicked {
                        "Logged in, but account task panicked: "@
                    } else {
                        "Logged in, but could not seal local account: "@
                    },
                    Some(e),
                ),
            ),
            LoginEvent::Saved(failure) => self.settled(
                complaint("Logged in, but could not save account: "@, failure),
            ),
            LoginEvent::DeviceChecked(enrolled) => if enrolled {
                self.over(none)
            } else if self.recipient is Some {
                LoginStep { stage: LoginStage::Enrolling, actions: none }
            } else {
                self.over(
                    seq![
                        ActionView::Error("device_unlock.enabled is set but recipient is missing"@),
                    ],
                )
            },
            LoginEvent::Enrolled(None) => LoginStep {
                stage: LoginStage::SavingDevice,
                actions: none,
            },
            LoginEvent::Enrolled(Some(e)) => self.over(
                complaint("Logged in, but device enrollment failed: "@, Some(e)),
            ),
            LoginEvent::DeviceSaved(failure) => self.over(
                complaint("Logged in, but could not save device cache: "@, failure),
            ),
        }
    }

    /// Whether an event led here, with these actions.
    pub open spec fn led_to(
        self,
        next: LoginTask,
        event: LoginEvent,
        actions: Seq<ActionView>,
    ) -> bool {
        next.stage == self.stepped(event).stage && actions == self.stepped(event).actions
    }

    /// A login at its start.
    pub fn new(enabled: bool, recipient: Option<String>) -> (r: LoginTask)
        ensures
            r.wf(),
            r.stage == LoginStage::Loading,
            r.enabled == enabled,
            r.recipient == recipient,
            r.keys is None,
            !r.known,
    {
        LoginTask { stage: LoginStage::Loading, enabled, recipient, known: false, keys: None }
    }

    fn finish(&mut self, before: Vec<Action>) -> (r: Vec<Action>)
        requires
            old(self).wf(),
            old(self).keys is Some,
        ensures
            final(self).wf(),
            ({
                let step = old(self).over(action_views(before@));
                old(self).moved_to(*final(self), step.stage) && action_views(r@) == step.actions
            }),
    {
        let mut v = before;
        let keys: Option<UnlockedKeys> = match &self.keys {
            Some(k) => Some(k.copy()),
            None => None,
        };
        if let Some(k) = keys {
            v.push(Action::Keys(k));
        }
        v.push(Action::StopCapture);
        v.push(Action::CloseModal);
        v.push(Action::SetMode(Mode::Home));
        self.stage = LoginStage::Over;
        proof {
            assert(action_views(v@) =~= action_views(before@) + farewell(old(self).keys->0));
        }
        v
    }

    fn settle(&mut self, before: Vec<Action>) -> (r: Vec<Action>)
        requires
            old(self).wf(),
            old(self).keys is Some,
        ensures
            final(self).wf(),
            ({
                let step = old(self).settled(action_views(before@));
                old(self).moved_to(*final(self), step.stage) && action_views(r@) == step.actions
            }),
    {
        let asked: bool = match &self.keys {
            Some(k) => k.token.as_str().unicode_len() > 0,
            None => false,
        };
        if self.enabled && asked {
            self.stage = LoginStage::CheckingDevice;
            before
        } else {
            self.finish(before)
        }
    }

    /// The account of this device was read: whether there is one.
    pub fn account_read(&mut self, read: Result<bool, String>) -> (r: Vec<Action>)
        requires
            old(self).wf(),
            old(self).stage == LoginStage::Loading,
        ensures
            final(self).wf(),
            old(self).led_to(*final(self), LoginEvent::AccountRead(read_text(read)), action_views(r@)),
            match read {
                Ok(known) => action_views(r@) == Seq::<ActionView>::empty() && *final(self) == (
                LoginTask { known, stage: LoginStage::LoggingIn, ..*old(self) }),
                Err(e) => action_views(r@) == complaint("Database error: "@, Some(e@)) && old(
                    self,
                ).moved_to(*final(self), LoginStage::Over),
            },
    {
        let mut v: Vec<Action> = Vec::new();
        match read {
            Ok(known) => {
                self.known = known;
                self.stage = LoginStage::LoggingIn;
            },
            Err(e) => {
                v.push(error_action("Database error: ", e.as_str()));
                self.stage = LoginStage::Over;
            },
        }
        proof {
            assert(read matches Ok(_) ==> action_views(v@) =~= Seq::<ActionView>::empty());
            assert(read matches Err(e) ==> action_views(v@) =~= complaint(
                "Database error: "@,
                Some(e@),
            ));
        }
        v
    }

    /// The server and this device's account were tried.
    pub fn logged_in(&mut self, got: Result<UnlockedKeys, String>) -> (r: Vec<Action>)
        requires
            old(self).wf(),
            old(self).stage == LoginStage::LoggingIn,
        ensures
            final(self).wf(),
            old(self).led_to(*final(self), LoginEvent::LoggedIn(keys_text(got)), action_views(r@)),
            match got {
                Ok(keys) => ({
                    let with = LoginTask { keys: Some(keys), ..*old(self) };
                    let step = if old(self).known {
                        with.settled(Seq::empty())
                    } else {
                        LoginStep { stage: LoginStage::Sealing, actions: Seq::empty() }
                    };
                    with.moved_to(*final(self), step.stage) && action_views(r@) == step.actions
                }),
                Err(e) => action_views(r@) == complaint("Login failed: "@, Some(e@)) && old(
                    self,
                ).moved_to(*final(self), LoginStage::Over),
            },
    {
        let mut v: Vec<Action> = Vec::new();
        proof {
            assert(action_views(v@) =~= Seq::<ActionView>::empty());
        }
        match got {
            Ok(keys) => {
                self.keys = Some(keys);
                if self.known {
                    self.settle(v)
                } else {
                    self.stage = LoginStage::Sealing;
                    v
                }
            },
            Err(e) => {
                v.push(error_action("Login failed: ", e.as_str()));
                self.stage = LoginStage::Over;
                proof {
                    assert(action_views(v@) =~= complaint("Login failed: "@, Some(e@)));
                }
                v
            },
        }
    }

    /// An account was sealed for this device.
    pub fn sealed(&mut self, end: Result<(), SealFailure>) -> (r: Vec<Action>)
        requires
            old(self).wf(),
            old(self).stage == LoginStage::Sealing,
        ensures
            final(self).wf(),
            old(self).led_to(*final(self), LoginEvent::Sealed(seal_text(end)), action_views(r@)),
            ({
                let step = match end {
                    Ok(_) => LoginStep { stage: LoginStage::Saving, actions: Seq::empty() },
                    Err(SealFailure::Refused(e)) => old(self).settled(
                        complaint("Logged in, but could not seal local account: "@, Some(e@)),
                    ),
                    Err(SealFailure::Panicked(e)) => old(self).settled(
                        complaint("Logged in, but account task panicked: "@, Some(e@)),
                    ),
                };
                old(self).moved_to(*final(self), step.stage) && action_views(r@) == step.actions
            }),
    {
        let mut v: Vec<Action> = Vec::new();
        match end {
            Ok(_) => {
                self.stage = LoginStage::Saving;
                proof {
                    assert(action_views(v@) =~= Seq::<ActionView>::empty());
                }
                v
            },
            Err(SealFailure::Refused(e)) => {
                v.push(error_action("Logged in, but could not seal local account: ", e.as_str()));
                proof {
                    assert(action_views(v@) =~= complaint(
                        "Logged in, but could not seal local account: "@,
                        Some(e@),
                    ));
                }
                self.settle(v)
            },
            Err(SealFailure::Panicked(e)) => {
                v.push(error_action("Logged in, but account task panicked: ", e.as_str()));
                proof {
                    assert(action_views(v@) =~= complaint(
                        "Logged in, but account task panicked: "@,
                        Some(e@),
                    ));
                }
                self.settle(v)
            },
        }
    }

    /// The sealed account was stored.
    pub fn saved(&mut self, failure: Option<String>) -> (r: Vec<Action>)
        requires
            old(self).wf(),
            old(self).stage == LoginStage::Saving,
        ensures
            final(self).wf(),
            old(self).led_to(*final(self), LoginEvent::Saved(opt_text(failure)), action_views(r@)),
            ({
                let step = old(self).settled(
                    complaint("Logged in, but could not save account: "@, opt_text(failure)),
                );
                old(self).moved_to(*final(self), step.stage) && action_views(r@) == step.actions
            }),
    {
        let ghost f = opt_text(failure);
        let mut v: Vec<Action> = Vec::new();
        if let Some(e) = failure {
            v.push(error_action("Logged in, but could not save account: ", e.as_str()));
        }
        proof {
            assert(action_views(v@) =~= complaint("Logged in, but could not save account: "@, f));
        }
        self.settle(v)
    }

    /// It was read whether the device is enrolled.
    pub fn device_checked(&mut self, enrolled: bool) -> (r: Vec<Action>)
        requires
            old(self).wf(),
            old(self).stage == LoginStage::CheckingDevice,
        ensures
            final(self).wf(),
            old(self).led_to(*final(self), LoginEvent::DeviceChecked(enrolled), action_views(r@)),
            ({
                let step = if enrolled {
                    old(self).over(Seq::empty())
                } else if old(self).recipient is Some {
                    LoginStep { stage: LoginStage::Enrolling, actions: Seq::empty() }
                } else {
                    old(self).over(
                        seq![
                            ActionView::Error(
                                "device_unlock.enabled is set but recipient is missing"@,
                            ),
                        ],
                    )
                };
                old(self).moved_to(*final(self), step.stage) && action_views(r@) == step.actions
            }),
    {
        let mut v: Vec<Action> = Vec::new();
        proof {
            assert(action_views(v@) =~= Seq::<ActionView>::empty());
        }
        if enrolled {
            self.finish(v)
        } else if self.recipient.is_some() {
            self.stage = LoginStage::Enrolling;
            v
        } else {
            v.push(
                Action::Error("device_unlock.enabled is set but recipient is missing".to_owned()),
            );
            proof {
                assert(action_views(v@) =~= seq![
                    ActionView::Error("device_unlock.enabled is set but recipient is missing"@),
                ]);
            }
            self.finish(v)
        }
    }

    /// The device was enrolled, or not.
    pub fn enrolled(&mut self, failure: Option<String>) -> (r: Vec<Action>)
        requires
            old(self).wf(),
            old(self).stage == LoginStage::Enrolling,
        ensures
            final(self).wf(),
            old(self).led_to(*final(self), LoginEvent::Enrolled(opt_text(failure)), action_views(r@)),
            ({
                let step = match failure {
                    None => LoginStep { stage: LoginStage::SavingDevice, actions: Seq::empty() },
                    Some(e) => old(self).over(
                        complaint("Logged in, but device enrollment failed: "@, Some(e@)),
                    ),
                };
                old(self).moved_to(*final(self), step.stage) && action_views(r@) == step.actions
            }),
    {
        let mut v: Vec<Action> = Vec::new();
        match failure {
            None => {
                self.stage = LoginStage::SavingDevice;
                proof {
                    assert(action_views(v@) =~= Seq::<ActionView>::empty());
                }
                v
            },
            Some(e) => {
                v.push(error_action("Logged in, but device enrollment failed: ", e.as_str()));
                proof {
                    assert(action_views(v@) =~= complaint(
                        "Logged in, but device enrollment failed: "@,
                        Some(e@),
                    ));
                }
                self.finish(v)
            },
        }
    }

    /// The device's cache was stored, or not.
    pub fn device_saved(&mut self, failure: Option<String>) -> (r: Vec<Action>)
        requires
            old(self).wf(),
            old(self).stage == LoginStage::SavingDevice,
        ensures
            final(self).wf(),
            old(self).led_to(*final(self), LoginEvent::DeviceSaved(opt_text(failure)), action_views(r@)),
            ({
                let step = old(self).over(
                    complaint("Logged in, but could not save device cache: "@, opt_text(failure)),
                );
                old(self).moved_to(*final(self), step.stage) && action_views(r@) == step.actions
            }),
    {
        let ghost f = opt_text(failure);
        let mut v: Vec<Action> = Vec::new();
        if let Some(e) = failure {
            v.push(error_action("Logged in, but could not save device cache: ", e.as_str()));
        }
        proof {
            assert(action_views(v@) =~= complaint(
                "Logged in, but could not save device cache: "@,
                f,
            ));
        }
        self.finish(v)
    }
}

/// Trouble with this device's account or key never keeps a user out: from the server's
/// answer on, every way to the end of a login hands over the keys and opens the
/// workspace.
pub proof fn law_login_goes_through(t: LoginTask, before: Seq<ActionView>)
    requires
        t.keys is Some,
        t.settled(before).stage == LoginStage::Over,
    ensures
        t.settled(before).actions.contains(ActionView::Keys(t.keys->0)),
        t.settled(before).actions.last() == ActionView::SetMode(Mode::Home),
        t.over(before).actions == before + farewell(t.keys->0),
{
    let s = t.settled(before).actions;
    assert(s[before.len() as int] == ActionView::Keys(t.keys->0));
}

/// Whether the last of some actions hand these keys over, and open the workspace.
pub open spec fn lets_in(actions: Seq<ActionView>, keys: UnlockedKeys) -> bool {
    let n = actions.len() as int;
    &&& n >= 4
    &&& actions[n - 4] == ActionView::Keys(keys)
    &&& actions[n - 3] == ActionView::StopCapture
    &&& actions[n - 2] == ActionView::CloseModal
    &&& actions[n - 1] == ActionView::SetMode(Mode::Home)
}

/// Once there are keys, a login ends by handing them over and opening the workspace, and only
/// by that; before its end nothing is handed over.
pub proof fn law_login_ends_with_the_keys(t: LoginTask, event: LoginEvent)
    requires
        !(event is AccountRead),
        event matches LoginEvent::LoggedIn(got) ==> got is Ok,
        !(event is LoggedIn) ==> t.keys is Some,
    ensures
        ({
            let step = t.stepped(event);
            let keys = match event {
                LoginEvent::LoggedIn(Ok(k)) => k,
                _ => t.keys->0,
            };
            &&& step.stage == LoginStage::Over ==> lets_in(step.actions, keys)
            &&& step.stage != LoginStage::Over ==> forall|i: int|
                0 <= i < step.actions.len() ==> (#[trigger] step.actions[i]) is Error
        }),
{
}

/// A login that fails, or whose account cannot be read, is over: the error is shown, and no keys
/// are handed over.
pub proof fn law_failed_login_hands_nothing_over(t: LoginTask, e: Seq<char>)
    ensures
        forall|event: LoginEvent|
            event == LoginEvent::LoggedIn(Err(e)) || event == LoginEvent::AccountRead(Err(e)) ==> {
                let step = #[trigger] t.stepped(event);
                &&& step.stage == LoginStage::Over
                &&& step.actions.len() == 1
                &&& step.actions[0] matches ActionView::Error(text) && text.len() >= e.len()
                    && text.skip(text.len() - e.len()) == e
            },
{
    assert(("Login failed: "@ + e).skip("Login failed: "@.len() as int) =~= e);
    assert(("Database error: "@ + e).skip("Database error: "@.len() as int) =~= e);
}

/// Trouble on the way is told before anything else, in the words it came in.
pub proof fn law_trouble_is_told(t: LoginTask, event: LoginEvent, e: Seq<char>)
    requires
        t.keys is Some,
        match event {
            LoginEvent::Sealed(Some(p)) => p.0 == e,
            LoginEvent::Saved(Some(x)) => x == e,
            LoginEvent::Enrolled(Some(x)) => x == e,
            LoginEvent::DeviceSaved(Some(x)) => x == e,
            _ => false,
        },
    ensures
        t.stepped(event).actions.len() > 0,
        t.stepped(event).actions[0] matches ActionView::Error(text) && text.len() >= e.len()
            && text.skip(text.len() - e.len()) == e,
{
    let a = "Logged in, but account task panicked: "@;
    let b = "Logged in, but could not seal local account: "@;
    let c = "Logged in, but could not save account: "@;
    let d = "Logged in, but device enrollment failed: "@;
    let f = "Logged in, but could not save device cache: "@;
    assert((a + e).skip(a.len() as int) =~= e);
    assert((b + e).skip(b.len() as int) =~= e);
    assert((c + e).skip(c.len() as int) =~= e);
    assert((d + e).skip(d.len() as int) =~= e);
    assert((f + e).skip(f.len() as int) =~= e);
}

/// Each step of a login is taken where it is needed, and only there: an account is sealed and
/// stored where this device has none, and the device is enrolled where that is wanted, the
/// server was asked, it is not enrolled yet and there is somebody to seal its cache to.
pub proof fn law_steps_of_a_login(t: LoginTask, keys: UnlockedKeys, failure: Option<Seq<char>>)
    requires
        t.keys == Some(keys),
    ensures
        ({
            let wanted = t.enabled && keys.token@.len() > 0;
            let then = if wanted {
                LoginStage::CheckingDevice
            } else {
                LoginStage::Over
            };
            &&& t.stepped(LoginEvent::LoggedIn(Ok(keys))).stage == (if t.known {
                then
            } else {
                LoginStage::Sealing
            })
            &&& t.stepped(LoginEvent::Sealed(None)).stage == LoginStage::Saving
            &&& t.stepped(LoginEvent::Saved(failure)).stage == then
            &&& t.stepped(LoginEvent::DeviceChecked(true)).stage == LoginStage::Over
            &&& t.stepped(LoginEvent::DeviceChecked(false)).stage == (if t.recipient is Some {
                LoginStage::Enrolling
            } else {
                LoginStage::Over
            })
            &&& t.stepped(LoginEvent::Enrolled(None)).stage == LoginStage::SavingDevice
            &&& t.stepped(LoginEvent::DeviceSaved(failure)).stage == LoginStage::Over
        }),
{
}

/// To unlock with the device's own key hands the keys over and opens the workspace; where it
/// fails the error is told, and the password is asked for.
pub proof fn law_device_unlock_or_password(end: Result<UnlockedKeys, String>)
    ensures
        match end {
            Ok(k) => device_unlocked(end).contains(ActionView::Keys(k)) && device_unlocked(
                end,
            ).last() == ActionView::SetMode(Mode::Home) && !device_unlocked(end).contains(
                ActionView::UnlockModal,
            ),
            Err(e) => device_unlocked(end).len() == 2 && device_unlocked(end)[0] is Error
                && device_unlocked(end)[1] == ActionView::UnlockModal,
        },
{
    if let Ok(k) = end {
        assert(device_unlocked(end)[0] == ActionView::Keys(k));
    }
}

} // verus!
