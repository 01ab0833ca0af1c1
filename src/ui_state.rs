//! The state behind the interface: pending device operations, their
//! feedback messages, the selected panel and which theme color a widget takes.
use vstd::prelude::*;
use crate::config::{RdpConfig, WolDevice};
use crate::text::push_str;

verus! {

/// The panels of the main window.
#[derive(Clone, Copy, Debug, PartialEq, Eq, Structural)]
pub enum Panel {
    Home,
    Vpn,
    Remote,
    Settings,
}

/// The kinds of device a card shows.
#[derive(Clone, Copy, Debug, PartialEq, Eq, Structural)]
pub enum DeviceType {
    Rdp,
    Wol,
}

/// The kinds of action a button performs.
#[derive(Clone, Copy, Debug, PartialEq, Eq, Structural)]
pub enum ActionType {
    Primary,
    Success,
    Warning,
    Error,
    Secondary,
}

/// The theme colors that widgets take.
#[derive(Clone, Copy, Debug, PartialEq, Eq, Structural)]
pub enum ColorRole {
    Primary,
    Success,
    Warning,
    Error,
    SurfaceVariant,
    TextDisabled,
}

/// The color of a device's icon: RDP hosts take the primary color,
/// Wake-on-LAN devices the success color when online and the disabled text
/// color otherwise.
pub fn device_icon_color(device_type: DeviceType, is_online: bool) -> (r: ColorRole)
    ensures
        r == match device_type {
            DeviceType::Rdp => ColorRole::Primary,
            DeviceType::Wol => if is_online { ColorRole::Success } else { ColorRole::TextDisabled },
        },
{
    match device_type {
        DeviceType::Rdp => ColorRole::Primary,
        DeviceType::Wol => device_status_color(is_online),
    }
}

/// The color of a device's status: success when online, disabled otherwise.
pub fn device_status_color(is_online: bool) -> (r: ColorRole)
    ensures
        r == if is_online { ColorRole::Success } else { ColorRole::TextDisabled },
{
    if is_online { ColorRole::Success } else { ColorRole::TextDisabled }
}

/// The color of an action button.
pub fn action_button_color(action: ActionType) -> (r: ColorRole)
    ensures
        r == match action {
            ActionType::Primary => ColorRole::Primary,
            ActionType::Success => ColorRole::Success,
            ActionType::Warning => ColorRole::Warning,
            ActionType::Error => ColorRole::Error,
            ActionType::Secondary => ColorRole::SurfaceVariant,
        },
{
    match action {
        ActionType::Primary => ColorRole::Primary,
        ActionType::Success => ColorRole::Success,
        ActionType::Warning => ColorRole::Warning,
        ActionType::Error => ColorRole::Error,
        ActionType::Secondary => ColorRole::SurfaceVariant,
    }
}

/// Where an operation on a device stands.
pub enum DeviceOperationState {
    Idle,
    Loading,
    Success(String),
    Error(String),
}

/// How an operation on a device ended.
pub struct DeviceOperationResult {
    pub device_name: String,
    pub operation: String,
    pub success: bool,
    pub message: String,
}

/// An operation that can be started on a device.
pub enum DeviceOperationType {
    Wake(WolDevice),
    Ping(WolDevice),
    RdpConnect(RdpConfig),
}

/// The key under which an operation on a device is tracked.
pub open spec fn operation_key(device_name: Seq<char>, operation: Seq<char>) -> Seq<char> {
    device_name + "_"@ + operation
}

/// The key under which an operation on a device is tracked.
pub fn make_operation_key(device_name: &str, operation: &str) -> (r: String)
    ensures
        r@ == operation_key(device_name@, operation@),
{
    let mut r = String::from_str(device_name);
    push_str(&mut r, "_");
    push_str(&mut r, operation);
    r
}

/// The outcome of an operation that ended with `success` and `message`.
pub open spec fn state_matches(s: DeviceOperationState, success: bool, message: Seq<char>) -> bool {
    if success {
        s matches DeviceOperationState::Success(m) && m@ == message
    } else {
        s matches DeviceOperationState::Error(m) && m@ == message
    }
}

fn copy_state(s: &DeviceOperationState) -> (r: DeviceOperationState)
    ensures
        match (*s, r) {
            (DeviceOperationState::Idle, DeviceOperationState::Idle) => true,
            (DeviceOperationState::Loading, DeviceOperationState::Loading) => true,
            (DeviceOperationState::Success(a), DeviceOperationState::Success(b)) => a@ == b@,
            (DeviceOperationState::Error(a), DeviceOperationState::Error(b)) => a@ == b@,
            _ => false,
        },
{
    match s {
        DeviceOperationState::Idle => DeviceOperationState::Idle,
        DeviceOperationState::Loading => DeviceOperationState::Loading,
        DeviceOperationState::Success(m) => DeviceOperationState::Success(m.clone()),
        DeviceOperationState::Error(m) => DeviceOperationState::Error(m.clone()),
    }
}

/// The message of a finished Wake-on-LAN request; `error` is the failure's
/// text when it failed.
pub open spec fn wake_message(device_name: Seq<char>, error: Option<Seq<char>>) -> Seq<char> {
    match error {
        None => "Wake-on-LAN packet sent to "@ + device_name,
        Some(e) => "Failed to wake "@ + device_name + ": "@ + e,
    }
}

/// The message of a finished status check.
pub open spec fn ping_message(device_name: Seq<char>, is_online: bool) -> Seq<char> {
    device_name + " is "@ + if is_online { "online"@ } else { "offline"@ }
}

/// The message of a finished RDP connection request.
pub open spec fn rdp_message(device_name: Seq<char>, error: Option<Seq<char>>) -> Seq<char> {
    match error {
        None => "RDP connection initiated to "@ + device_name,
        Some(e) => "Failed to connect to "@ + device_name + ": "@ + e,
    }
}

/// The error text of an outcome, if it failed.
pub open spec fn error_text(outcome: Result<(), String>) -> Option<Seq<char>> {
    match outcome {
        Ok(()) => None,
        Err(e) => Some(e@),
    }
}

/// `r` is the result of `operation` on `device_name`.
pub open spec fn result_of(r: DeviceOperationResult, device_name: Seq<char>, operation: Seq<char>) -> bool {
    r.device_name@ == device_name && r.operation@ == operation
}

impl DeviceOperationResult {
    /// The result of a Wake-on-LAN request.
    pub fn wake(device_name: &str, operation: &str, outcome: Result<(), String>) -> (r: DeviceOperationResult)
        ensures
            result_of(r, device_name@, operation@),
            r.success == outcome is Ok,
            r.message@ == wake_message(device_name@, error_text(outcome)),
    {
        let mut message = String::new();
        let success = outcome.is_ok();
        match outcome {
            Ok(()) => {
                push_str(&mut message, "Wake-on-LAN packet sent to ");
                push_str(&mut message, device_name);
            },
            Err(e) => {
                push_str(&mut message, "Failed to wake ");
                push_str(&mut message, device_name);
                push_str(&mut message, ": ");
                push_str(&mut message, e.as_str());
            },
        }
        DeviceOperationResult {
            device_name: String::from_str(device_name),
            operation: String::from_str(operation),
            success,
            message,
        }
    }

    /// The result of a status check; the check itself always succeeds.
    pub fn ping(device_name: &str, operation: &str, is_online: bool) -> (r: DeviceOperationResult)
        ensures
            result_of(r, device_name@, operation@),
            r.success,
            r.message@ == ping_message(device_name@, is_online),
    {
        let mut message = String::from_str(device_name);
        push_str(&mut message, " is ");
        push_str(&mut message, if is_online { "online" } else { "offline" });
        DeviceOperationResult {
            device_name: String::from_str(device_name),
            operation: String::from_str(operation),
            success: true,
            message,
        }
    }

    /// The result of an RDP connection request.
    pub fn rdp(device_name: &str, operation: &str, outcome: Result<(), String>) -> (r: DeviceOperationResult)
        ensures
            result_of(r, device_name@, operation@),
            r.success == outcome is Ok,
            r.message@ == rdp_message(device_name@, error_text(outcome)),
    {
        let mut message = String::new();
        let success = outcome.is_ok();
        match outcome {
            Ok(()) => {
                push_str(&mut message, "RDP connection initiated to ");
                push_str(&mut message, device_name);
            },
            Err(e) => {
                push_str(&mut message, "Failed to connect to ");
                push_str(&mut message, device_name);
                push_str(&mut message, ": ");
                push_str(&mut message, e.as_str());
            },
        }
        DeviceOperationResult {
            device_name: String::from_str(device_name),
            operation: String::from_str(operation),
            success,
            message,
        }
    }
}

/// The state of each device operation that was started, by key; an
/// operation never started is idle.
pub struct DeviceOperations {
    entries: Vec<(String, DeviceOperationState)>,
}

impl DeviceOperations {
    /// The keys of the tracked operations.
    pub closed spec fn keys(&self) -> Seq<Seq<char>> {
        self.entries@.map_values(|e: (String, DeviceOperationState)| e.0@)
    }

    /// The state tracked under `key`, if any.
    pub closed spec fn state_at(&self, key: Seq<char>) -> Option<DeviceOperationState> {
        if exists|i: int| 0 <= i < self.entries@.len() && self.entries@[i].0@ == key {
            let i = choose|i: int| 0 <= i < self.entries@.len() && self.entries@[i].0@ == key;
            Some(self.entries@[i].1)
        } else {
            None
        }
    }

    /// Each key is tracked once.
    pub closed spec fn wf(&self) -> bool {
        forall|i: int, j: int| 0 <= i < j < self.entries@.len() ==> self.entries@[i].0@ != self.entries@[j].0@
    }

    /// No operation tracked.
    pub fn new() -> (r: DeviceOperations)
        ensures
            r.wf(),
            forall|k: Seq<char>| r.state_at(k) is None,
    {
        DeviceOperations { entries: Vec::new() }
    }

    fn position(&self, key: &String) -> (r: Option<usize>)
        requires
            self.wf(),
        ensures
            r is None <==> self.state_at(key@) is None,
            r is Some ==> r->Some_0 < self.entries@.len() && self.entries@[r->Some_0 as int].0@ == key@,
    {
        let mut i: usize = 0;
        while i < self.entries.len()
            invariant
                i <= self.entries@.len(),
                forall|j: int| 0 <= j < i ==> self.entries@[j].0@ != key@,
            decreases self.entries@.len() - i,
        {
            if self.entries[i].0 == *key {
                return Some(i);
            }
            i = i + 1;
        }
        None
    }

    /// Tracks `state` under `key`, replacing what was tracked there.
    pub fn set(&mut self, key: String, state: DeviceOperationState)
        requires
            old(self).wf(),
        ensures
            final(self).wf(),
            final(self).state_at(key@) == Some(state),
            forall|k: Seq<char>| k != key@ ==> final(self).state_at(k) == old(self).state_at(k),
    {
        let ghost k0 = key@;
        match self.position(&key) {
            Some(i) => {
                let ghost before = self.entries@;
                self.entries.set(i, (key, state));
                assert forall|k: Seq<char>| k != k0 implies self.state_at(k) == old(self).state_at(k) by {
                    if exists|j: int| 0 <= j < before.len() && before[j].0@ == k {
                        let j = choose|j: int| 0 <= j < before.len() && before[j].0@ == k;
                        assert(self.entries@[j].0@ == k);
                    }
                    if exists|j: int| 0 <= j < self.entries@.len() && self.entries@[j].0@ == k {
                        let j = choose|j: int| 0 <= j < self.entries@.len() && self.entries@[j].0@ == k;
                        assert(before[j].0@ == k);
                    }
                }
                assert(self.entries@[i as int].0@ == k0);
            },
            None => {
                let ghost before = self.entries@;
                self.entries.push((key, state));
                assert forall|k: Seq<char>| k != k0 implies self.state_at(k) == old(self).state_at(k) by {
                    if exists|j: int| 0 <= j < before.len() && before[j].0@ == k {
                        let j = choose|j: int| 0 <= j < before.len() && before[j].0@ == k;
                        assert(self.entries@[j].0@ == k);
                    }
                    if exists|j: int| 0 <= j < self.entries@.len() && self.entries@[j].0@ == k {
                        let j = choose|j: int| 0 <= j < self.entries@.len() && self.entries@[j].0@ == k;
                        assert(before[j].0@ == k);
                    }
                }
                assert(self.entries@[before.len() as int].0@ == k0);
            },
        }
    }

    /// Marks `operation` on `device_name` as running.
    pub fn start(&mut self, device_name: &str, operation: &str)
        requires
            old(self).wf(),
        ensures
            final(self).wf(),
            final(self).state_at(operation_key(device_name@, operation@)) == Some(DeviceOperationState::Loading),
            forall|k: Seq<char>| k != operation_key(device_name@, operation@)
                ==> final(self).state_at(k) == old(self).state_at(k),
    {
        self.set(make_operation_key(device_name, operation), DeviceOperationState::Loading);
    }

    /// Records how an operation ended: success or error, with its message.
    pub fn finish(&mut self, result: &DeviceOperationResult)
        requires
            old(self).wf(),
        ensures
            final(self).wf(),
            ({
                let k = operation_key(result.device_name@, result.operation@);
                &&& final(self).state_at(k) is Some
                &&& state_matches(final(self).state_at(k)->Some_0, result.success, result.message@)
                &&& forall|j: Seq<char>| j != k ==> final(self).state_at(j) == old(self).state_at(j)
            }),
    {
        let key = make_operation_key(result.device_name.as_str(), result.operation.as_str());
        let state = if result.success {
            DeviceOperationState::Success(result.message.clone())
        } else {
            DeviceOperationState::Error(result.message.clone())
        };
        self.set(key, state);
    }

    /// The state of `operation` on `device_name`: idle when never started.
    pub fn state_of(&self, device_name: &str, operation: &str) -> (r: DeviceOperationState)
        requires
            self.wf(),
        ensures
            match self.state_at(operation_key(device_name@, operation@)) {
                None => r is Idle,
                Some(s) => match (s, r) {
                    (DeviceOperationState::Idle, DeviceOperationState::Idle) => true,
                    (DeviceOperationState::Loading, DeviceOperationState::Loading) => true,
                    (DeviceOperationState::Success(a), DeviceOperationState::Success(b)) => a@ == b@,
                    (DeviceOperationState::Error(a), DeviceOperationState::Error(b)) => a@ == b@,
                    _ => false,
                },
            },
    {
        let key = make_operation_key(device_name, operation);
        match self.position(&key) {
            Some(i) => {
                proof {
                    let k = key@;
                    let j = choose|j: int| 0 <= j < self.entries@.len() && self.entries@[j].0@ == k;
                    assert(j == i as int);
                }
                copy_state(&self.entries[i].1)
            },
            None => DeviceOperationState::Idle,
        }
    }
}

} // verus!
