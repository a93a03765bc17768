//! Provisioning of fonts: which locale to shape with, in which order to
//! load what was asked for, and the slot through which a loader that runs
//! in the background hands over what it has loaded.

use vstd::prelude::*;
use std::sync::{Arc, OnceLock};

verus! {

#[verifier::external_type_specification]
#[verifier::external_body]
#[verifier::reject_recursive_types(T)]
pub struct ExOnceLock<T>(OnceLock<T>);

/// The locale used where none is set and the system names none.
pub open spec fn default_locale() -> Seq<char> {
    "en-US"@
}

/// The locale to shape with: the one set, else the system's, else
/// [`default_locale`].
pub open spec fn locale_of(preferred: Option<String>, system: Option<String>) -> Seq<char> {
    match preferred {
        Some(locale) => locale@,
        None => match system {
            Some(locale) => locale@,
            None => default_locale(),
        },
    }
}

/// `sys_locale::get_locale`: the locale that the system prefers, if it
/// names one. What comes back depends on the machine, so nothing is claimed
/// of it.
#[verifier::external_body]
fn system_locale() -> Option<String> {
    sys_locale::get_locale()
}

/// Chooses among the locale set and the one the system gave.
pub fn locale_or_default(preferred: Option<String>, system: Option<String>) -> (locale: String)
    ensures
        locale@ == locale_of(preferred, system),
{
    match preferred {
        Some(locale) => locale,
        None => match system {
            Some(locale) => locale,
            None => "en-US".to_owned(),
        },
    }
}

/// The locale to shape with. The system is asked only where none is set.
pub fn resolve_locale(preferred: Option<String>) -> (locale: String)
    ensures
        preferred is Some ==> locale@ == preferred->0@,
        exists|system: Option<String>| locale@ == locale_of(preferred, system),
{
    match preferred {
        Some(locale) => {
            assert(locale@ == locale_of(preferred, None));
            locale
        },
        None => {
            let system = system_locale();
            locale_or_default(None, system)
        },
    }
}

/// The fonts to load besides those of the system.
#[derive(Clone, Debug, Default)]
pub struct LoadFonts {
    /// Font files, by path.
    pub font_paths: Vec<String>,
    /// Directories to search for font files.
    pub font_directories: Vec<String>,
    /// Fonts held in memory.
    pub font_embedded: Vec<Vec<u8>>,
}

/// One step of loading fonts; the number is that of the entry in its list
/// of [`LoadFonts`].
#[derive(Clone, Copy, Debug, PartialEq, Eq, Structural)]
pub enum LoadStep {
    SystemFonts,
    File(usize),
    Directory(usize),
    Embedded(usize),
}

/// The steps in their order: the system's fonts if they are wanted, then
/// the files, the directories and the fonts in memory, each list in its
/// own order.
pub open spec fn steps_of(system_fonts: bool, files: nat, directories: nat, embedded: nat) -> Seq<
    LoadStep,
> {
    (if system_fonts {
        seq![LoadStep::SystemFonts]
    } else {
        Seq::empty()
    }) + Seq::new(files, |i: int| LoadStep::File(i as usize)) + Seq::new(
        directories,
        |i: int| LoadStep::Directory(i as usize),
    ) + Seq::new(embedded, |i: int| LoadStep::Embedded(i as usize))
}

impl LoadFonts {
    /// The steps that load these fonts, after the system's if
    /// `system_fonts` is set.
    pub fn steps(&self, system_fonts: bool) -> (steps: Vec<LoadStep>)
        ensures
            steps@ == steps_of(
                system_fonts,
                self.font_paths@.len(),
                self.font_directories@.len(),
                self.font_embedded@.len(),
            ),
    {
        let mut steps: Vec<LoadStep> = Vec::new();
        if system_fonts {
            steps.push(LoadStep::SystemFonts);
        }
        let ghost head = steps@;
        let files: usize = self.font_paths.len();
        let mut i: usize = 0;
        while i < files
            invariant
                i <= files,
                steps@ == head + Seq::new(i as nat, |k: int| LoadStep::File(k as usize)),
            decreases files - i,
        {
            steps.push(LoadStep::File(i));
            i = i + 1;
            assert(steps@ =~= head + Seq::new(i as nat, |k: int| LoadStep::File(k as usize)));
        }
        let ghost head = steps@;
        let directories: usize = self.font_directories.len();
        let mut i: usize = 0;
        while i < directories
            invariant
                i <= directories,
                steps@ == head + Seq::new(i as nat, |k: int| LoadStep::Directory(k as usize)),
            decreases directories - i,
        {
            steps.push(LoadStep::Directory(i));
            i = i + 1;
            assert(steps@ =~= head + Seq::new(i as nat, |k: int| LoadStep::Directory(k as usize)));
        }
        let ghost head = steps@;
        let embedded: usize = self.font_embedded.len();
        let mut i: usize = 0;
        while i < embedded
            invariant
                i <= embedded,
                steps@ == head + Seq::new(i as nat, |k: int| LoadStep::Embedded(k as usize)),
            decreases embedded - i,
        {
            steps.push(LoadStep::Embedded(i));
            i = i + 1;
            assert(steps@ =~= head + Seq::new(i as nat, |k: int| LoadStep::Embedded(k as usize)));
        }
        steps
    }
}

/// `OnceLock::new`: a slot that holds nothing yet.
#[verifier::external_body]
fn slot_new<T>() -> OnceLock<T> {
    OnceLock::new()
}

/// `OnceLock::set`: puts `value` in the slot if the slot is empty. Whether
/// it is depends on what other holders of the slot have done, so only this
/// is claimed: what comes back on failure is the value that was offered.
#[verifier::external_body]
fn slot_set<T>(slot: &OnceLock<T>, value: T) -> (outcome: Result<(), T>)
    ensures
        outcome is Err ==> outcome->Err_0 == value,
{
    slot.set(value)
}

/// `Arc::get_mut`: the slot itself, if no one else holds it. Whether anyone
/// does depends on the other holders, so nothing is claimed.
#[verifier::external_body]
fn slot_unique<T>(slot: &mut Arc<OnceLock<T>>) -> Option<&mut OnceLock<T>> {
    Arc::get_mut(slot)
}

/// `OnceLock::take`: what the slot holds, if anything, leaving it empty.
/// Nothing is claimed of what it held.
#[verifier::external_body]
fn slot_take<T>(slot: &mut OnceLock<T>) -> Option<T> {
    slot.take()
}

/// `Arc::clone`: another holder of the same slot. Believed, not proved:
/// the pointer returned points to the allocation that `slot` points to, so
/// the two are equal as what they point to.
#[verifier::external_body]
fn slot_share<T>(slot: &Arc<OnceLock<T>>) -> (shared: Arc<OnceLock<T>>)
    ensures
        shared == *slot,
{
    Arc::clone(slot)
}

/// What the pass that waits for the fonts does in one cycle.
#[derive(Debug, PartialEq, Eq)]
pub enum Handover<T> {
    /// Nothing has arrived: the slot stays, and the pass looks again in the
    /// next cycle.
    Wait,
    /// The fonts have arrived: they are installed, once, and the slot is
    /// given up.
    Install(T),
}

/// Decides on what a poll of the slot brought.
pub fn handover<T>(claimed: Option<T>) -> (step: Handover<T>)
    ensures
        step == (match claimed {
            Some(value) => Handover::Install(value),
            None => Handover::Wait,
        }),
{
    match claimed {
        Some(value) => Handover::Install(value),
        None => Handover::Wait,
    }
}

/// A write-once slot shared by a loader in the background, which fills it,
/// and the pass that waits for it, which polls it without blocking.
#[verifier::reject_recursive_types(T)]
pub struct LoadCosmicFonts<T>(pub(crate) Arc<OnceLock<T>>);

impl<T> LoadCosmicFonts<T> {
    /// An empty slot.
    pub fn new() -> Self {
        LoadCosmicFonts(Arc::new(slot_new()))
    }

    /// Another holder of this slot, for the loader: what is delivered
    /// through either is claimed through the other.
    pub fn share(&self) -> (shared: Self)
        ensures
            shared == *self,
    {
        LoadCosmicFonts(slot_share(&self.0))
    }

    /// Offers `value` to the slot. A slot that is filled already keeps what
    /// it has and gives `value` back.
    pub fn deliver(&self, value: T) -> (outcome: Result<(), T>)
        ensures
            outcome is Err ==> outcome->Err_0 == value,
    {
        slot_set(&self.0, value)
    }

    /// Takes what was delivered, once the loader has let go of the slot.
    /// Never blocks: while the loader still holds the slot, or where
    /// nothing was delivered, there is nothing to take.
    pub fn claim(&mut self) -> Option<T> {
        match slot_unique(&mut self.0) {
            Some(slot) => slot_take(slot),
            None => None,
        }
    }
}

} // verus!
