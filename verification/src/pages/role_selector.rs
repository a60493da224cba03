//! The drop-down that chooses one of the guild's roles.
use vstd::prelude::*;
use crate::links::selected_value;
use crate::text::{decimal, parse_u64, parse_u64_spec};

verus! {

/// What the selector is given: the roles (id and name), the chosen role,
/// and whether it is switched off.
#[derive(Debug, PartialEq, Eq)]
pub struct RoleSelectorProps {
    pub roles: Vec<(u64, String)>,
    pub selected: Option<u64>,
    pub disabled: bool,
}

/// The selector keeps nothing of its own.
#[derive(Clone, Copy, Debug, PartialEq, Eq, Structural)]
pub struct RoleSelector;

/// What happens to the selector: an option with this value was chosen.
#[derive(Debug, PartialEq, Eq)]
pub enum RoleSelectorMsg {
    Change(String),
}

impl RoleSelector {
    /// The role to report as chosen: the option's value read as a role id;
    /// nothing for a value that is not one. The selector never renders
    /// again on its own.
    pub fn update(&self, msg: RoleSelectorMsg) -> (r: Option<u64>)
        ensures
            match msg {
                RoleSelectorMsg::Change(value) => r == parse_u64_spec(value@),
            },
    {
        match msg {
            RoleSelectorMsg::Change(value) => parse_u64(value.as_str()),
        }
    }

    /// Whether the selector is switched off: when asked, or when there are
    /// no roles to choose from.
    pub fn is_disabled(props: &RoleSelectorProps) -> (r: bool)
        ensures
            r == (props.disabled || props.roles@.len() == 0),
    {
        props.disabled || props.roles.len() == 0
    }

    /// The selector's value: the chosen role's id, or nothing.
    pub fn value(props: &RoleSelectorProps) -> (r: String)
        ensures
            r@ == (match props.selected { Some(id) => decimal(id as nat), None => Seq::<char>::empty() }),
    {
        selected_value(props.selected)
    }
}

} // verus!
