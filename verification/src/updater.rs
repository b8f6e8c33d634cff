use vstd::prelude::*;
use crate::command::Command;
use crate::config::{first_mode_idx, has_mode, find_mode, Config};
use crate::errors::SyncError;
use crate::pattern::{valid_mask, PatternSet};
use crate::text::split_on;

verus! {

/// One run's context: the loaded configuration, the command, and the
/// requested update-mode name. The operations themselves are pure planning
/// functions over this context; the surrounding binary performs their I/O
/// and reports their outcomes.
pub struct Updater<'a> {
    pub config: &'a Config,
    pub command: Command,
    pub update_mode_name: String,
}

impl<'a> Updater<'a> {
    /// Gathers a run's context.
    pub fn new(config: &'a Config, command: Command, update_mode_name: &str) -> (r: Updater<'a>)
        ensures
            r.config == config,
            r.command == command,
            r.update_mode_name@ == update_mode_name@,
    {
        Updater { config, command, update_mode_name: update_mode_name.to_owned() }
    }

    /// The file mask of the first mode whose name matches the run's mode
    /// name once both are Unicode-lowercased; `None` when no mode matches,
    /// which ends the run before any file or store operation.
    pub fn get_file_mask(&self) -> (r: Option<String>)
        ensures
            r is Some <==> has_mode(self.config.update_mode@, self.update_mode_name@),
            r matches Some(mask) ==> mask@ == self.config.update_mode@[first_mode_idx(
                self.config.update_mode@,
                self.update_mode_name@,
            )].file_mask@,
    {
        match find_mode(&self.config.update_mode, self.update_mode_name.as_str()) {
            Some(i) => Some(self.config.update_mode[i].file_mask.clone()),
            None => None,
        }
    }

    /// Resolves the run's mode name to its compiled pattern set: the
    /// terminal `ModeNotFound` when no mode matches the name, and
    /// `InvalidPattern` when the matched mode's mask does not compile.
    /// Resolution touches neither the filesystem nor the store.
    pub fn resolve_pattern_set(&self) -> (r: Result<PatternSet, SyncError>)
        ensures
            ({
                let modes = self.config.update_mode@;
                let name = self.update_mode_name@;
                &&& (!has_mode(modes, name) <==> r == Err::<PatternSet, SyncError>(
                    SyncError::ModeNotFound,
                ))
                &&& (has_mode(modes, name) ==> {
                    let mask = modes[first_mode_idx(modes, name)].file_mask@;
                    &&& (r is Ok <==> valid_mask(mask))
                    &&& (r matches Ok(ps) ==> ps@ == split_on(mask, ';'))
                    &&& (!valid_mask(mask) ==> r == Err::<PatternSet, SyncError>(
                        SyncError::InvalidPattern,
                    ))
                })
            }),
    {
        match self.get_file_mask() {
            Some(mask) => PatternSet::new(mask.as_str()),
            None => Err(SyncError::ModeNotFound),
        }
    }
}

} // verus!
