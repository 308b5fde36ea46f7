use vstd::prelude::*;

verus! {

broadcast use vstd::string::group_string_axioms;

/// A piece of data attached to an entity; it is known by its name.
pub trait Component {
    /// The name of the kind of component.
    fn name(&self) -> String;
}

/// What a character is doing; it selects the animation that plays.
#[allow(non_camel_case_types)]
#[derive(Clone, Copy, Debug, PartialEq, Eq, Hash, Structural)]
pub enum CharacterState {
    IDLE,
    MOVE,
    ATTACK,
}

/// The state of a character entity.
#[derive(Debug)]
pub struct CharacterStateComponent {
    pub character_state: CharacterState,
}

impl Component for CharacterStateComponent {
    /// This component reports the name `Position`.
    fn name(&self) -> (name: String)
        ensures
            name@ == "Position"@,
    {
        "Position".to_string()
    }
}

} // verus!
