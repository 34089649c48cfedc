//! The application's saved settings.
use vstd::prelude::*;

use crate::models::ButtonActionType;

verus! {

/// Settings remembered between runs.
#[derive(Clone, Debug)]
pub struct AppConfig {
    pub last_midi_port: Option<String>,
    pub last_controller_address: Option<String>,
    pub last_controller_password: Option<String>,
    pub last_action_type: Option<ButtonActionType>,
}

/// The controller address used until another is chosen.
pub open spec fn default_address() -> Seq<char> {
    "127.0.0.1:7348"@
}

fn default_address_text() -> (r: String)
    ensures
        r@ == default_address(),
{
    String::from_str("127.0.0.1:7348")
}

impl Default for AppConfig {
    fn default() -> (r: AppConfig)
        ensures
            r.last_midi_port is None,
            r.last_controller_address matches Some(a) && a@ == default_address(),
            r.last_controller_password is None,
            r.last_action_type == Some(ButtonActionType::Toggle),
    {
        AppConfig {
            last_midi_port: None,
            last_controller_address: Some(default_address_text()),
            last_controller_password: None,
            last_action_type: Some(ButtonActionType::Toggle),
        }
    }
}

/// The first position, at or after `i`, of `name` among `ports`.
pub open spec fn position_from(ports: Seq<String>, name: Seq<char>, i: int) -> Option<usize>
    decreases ports.len() - i,
{
    if i < 0 || i >= ports.len() {
        None
    } else if ports[i]@ == name {
        Some(i as usize)
    } else {
        position_from(ports, name, i + 1)
    }
}

impl AppConfig {
    /// The controller address to offer: the last one used, else the default.
    pub fn controller_address(&self) -> (r: String)
        ensures
            r@ == match self.last_controller_address {
                Some(a) => a@,
                None => default_address(),
            },
    {
        match &self.last_controller_address {
            Some(a) => a.clone(),
            None => default_address_text(),
        }
    }

    /// The credential to offer: the last one used, else none.
    pub fn controller_password(&self) -> (r: String)
        ensures
            r@ == match self.last_controller_password {
                Some(p) => p@,
                None => Seq::<char>::empty(),
            },
    {
        match &self.last_controller_password {
            Some(p) => p.clone(),
            None => String::new(),
        }
    }

    /// The action kind to offer: the last one used, else toggling.
    pub fn action_type(&self) -> (r: ButtonActionType)
        ensures
            r == match self.last_action_type {
                Some(t) => t,
                None => ButtonActionType::Toggle,
            },
    {
        match self.last_action_type {
            Some(t) => t,
            None => ButtonActionType::Toggle,
        }
    }

    /// The MIDI port to select among `ports`: the last one used where it is
    /// still there; with no last port, the first port if there is one.
    pub fn preferred_port(&self, ports: &[String]) -> (r: Option<usize>)
        ensures
            match self.last_midi_port {
                Some(last) => r == position_from(ports@, last@, 0),
                None => r == if ports@.len() > 0 {
                    Some(0usize)
                } else {
                    None
                },
            },
    {
        match &self.last_midi_port {
            None => if ports.len() > 0 {
                Some(0)
            } else {
                None
            },
            Some(last) => {
                let mut i: usize = 0;
                while i < ports.len()
                    invariant
                        i <= ports@.len(),
                        self.last_midi_port == Some(*last),
                        position_from(ports@, last@, 0) == position_from(ports@, last@, i as int),
                    decreases ports@.len() - i,
                {
                    if ports[i] == *last {
                        return Some(i);
                    }
                    i = i + 1;
                }
                None
            },
        }
    }
}

} // verus!
