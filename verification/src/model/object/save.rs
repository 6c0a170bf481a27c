use vstd::prelude::*;
use crate::model::object::object::{Object, ObjectError};

verus! {

/// One step of saving an object.
#[derive(Debug, Clone, Copy, PartialEq, Eq, Structural)]
pub enum SaveStep {
    /// The on-save pipelines run and the required fields are validated.
    ValidateForSave,
    /// The model's before-save callbacks run.
    BeforeSaveCallbacks,
    /// The changes given for the relations that hold a foreign key (`true`), or for those
    /// that do not (`false`), are performed.
    RelationManipulations(bool),
    /// The object is written to the database, and no longer counts as new or changed.
    SaveToDatabase,
    /// The object's state is cleared: it counts as saved and unchanged.
    ClearState,
    /// The model's after-save callbacks run.
    AfterSaveCallbacks,
}

/// The steps of saving an object that is new or changed (`changed`), or neither: a new or
/// changed object is validated, passed to the before-save callbacks, has the changes of its
/// relations with a foreign key performed, and is written; any other object only has those
/// changes performed. Then the changes of the other relations are performed and the state is
/// cleared; last, for a new or changed object, the after-save callbacks run, unless they are
/// running for it already.
pub open spec fn save_steps(changed: bool, inside_after_save_callback: bool) -> Seq<SaveStep> {
    (if changed {
        seq![
            SaveStep::ValidateForSave,
            SaveStep::BeforeSaveCallbacks,
            SaveStep::RelationManipulations(true),
            SaveStep::SaveToDatabase,
        ]
    } else {
        seq![SaveStep::RelationManipulations(true)]
    }) + seq![SaveStep::RelationManipulations(false), SaveStep::ClearState] + (if changed
        && !inside_after_save_callback {
        seq![SaveStep::AfterSaveCallbacks]
    } else {
        Seq::empty()
    })
}

impl<V> Object<V> {
    /// Fails with `InvalidOperation` where the model's before-save callbacks are running for
    /// the object: it cannot be saved from inside them.
    pub fn before_save_callback_check(&self) -> (r: Result<(), ObjectError>)
        ensures
            self.inside_before_save_callback ==> (r matches Err(ObjectError::InvalidOperation(m))
                && m@ == "save called inside before callback"@),
            !self.inside_before_save_callback ==> r is Ok,
    {
        if self.inside_before_save_callback {
            return Err(ObjectError::InvalidOperation("save called inside before callback".to_string()));
        }
        Ok(())
    }

    /// The steps of saving the object, as `save_steps` gives them; it cannot be saved from
    /// inside its before-save callbacks.
    pub fn save_plan(&self) -> (r: Result<Vec<SaveStep>, ObjectError>)
        ensures
            self.inside_before_save_callback ==> (r matches Err(ObjectError::InvalidOperation(m))
                && m@ == "save called inside before callback"@),
            !self.inside_before_save_callback ==> (r matches Ok(steps)
                && steps@ == save_steps(self.is_new || self.is_modified, self.inside_after_save_callback)),
    {
        match self.before_save_callback_check() {
            Err(e) => {
                return Err(e);
            },
            Ok(()) => {},
        }
        let changed = self.is_new || self.is_modified;
        let mut steps: Vec<SaveStep> = Vec::new();
        if changed {
            steps.push(SaveStep::ValidateForSave);
            steps.push(SaveStep::BeforeSaveCallbacks);
            steps.push(SaveStep::RelationManipulations(true));
            steps.push(SaveStep::SaveToDatabase);
        } else {
            steps.push(SaveStep::RelationManipulations(true));
        }
        steps.push(SaveStep::RelationManipulations(false));
        steps.push(SaveStep::ClearState);
        if changed && !self.inside_after_save_callback {
            steps.push(SaveStep::AfterSaveCallbacks);
        }
        assert(steps@ =~= save_steps(changed, self.inside_after_save_callback));
        Ok(steps)
    }

    /// Records whether the model's before-save callbacks are running for the object.
    pub fn set_inside_before_save_callback(&mut self, inside: bool)
        ensures
            *final(self) == (Object { inside_before_save_callback: inside, ..*old(self) }),
    {
        self.inside_before_save_callback = inside;
    }

    /// Records whether the model's after-save callbacks are running for the object.
    pub fn set_inside_after_save_callback(&mut self, inside: bool)
        ensures
            *final(self) == (Object { inside_after_save_callback: inside, ..*old(self) }),
    {
        self.inside_after_save_callback = inside;
    }
}

} // verus!
