//! The shared state: the selected instrument and the catalog. Selecting
//! is a two-step affair around the control program: look the locator up,
//! let the caller run the program, then commit with its outcome.
use crate::catalog::Catalog;
use vstd::prelude::*;

verus! {

/// What a store holds, as mathematical values.
pub struct StoreModel {
    pub selected: Seq<char>,
    pub instruments: Map<Seq<char>, Seq<char>>,
    pub order: Seq<Seq<char>>,
}

/// Why a selection did not happen.
#[derive(Clone, Copy, Debug, PartialEq, Eq, Structural)]
pub enum StoreError {
    /// The name is not a key of the catalog.
    NotFound,
    /// The control program reported failure.
    ControlActionFailed,
}

/// Why a store could not be built from the catalog supplied at startup.
#[derive(Clone, Copy, Debug, PartialEq, Eq, Structural)]
pub enum ConfigError {
    /// The catalog holds no instrument.
    EmptyCatalog,
    /// The initial selection is not in the catalog.
    UnknownSelection,
}

/// The model after `select(name)` when the control program reported
/// `applied`, and the result of the call.
pub open spec fn select_model(m: StoreModel, name: Seq<char>, applied: bool) -> (
    StoreModel,
    Result<(), StoreError>,
) {
    if !m.instruments.contains_key(name) {
        (m, Err(StoreError::NotFound))
    } else if !applied {
        (m, Err(StoreError::ControlActionFailed))
    } else {
        (StoreModel { selected: name, ..m }, Ok(()))
    }
}

/// The selection is empty or names an instrument of the catalog.
pub open spec fn selection_valid(m: StoreModel) -> bool {
    m.selected.len() == 0 || m.instruments.contains_key(m.selected)
}

pub struct Store {
    selected: String,
    instruments: Catalog,
}

impl Store {
    pub closed spec fn view(&self) -> StoreModel {
        StoreModel {
            selected: self.selected@,
            instruments: self.instruments.view(),
            order: self.instruments.order(),
        }
    }

    pub closed spec fn wf(&self) -> bool {
        &&& self.instruments.wf()
        &&& selection_valid(self.view())
    }

    /// A store over `instruments` with `selected` as its selection.
    pub fn new(selected: String, instruments: Catalog) -> (r: Result<Store, ConfigError>)
        requires
            instruments.wf(),
        ensures
            instruments.view().dom().len() == 0 <==> r == Err::<Store, ConfigError>(
                ConfigError::EmptyCatalog,
            ),
            instruments.view().dom().len() > 0 && selected@.len() > 0
                && !instruments.view().contains_key(selected@) <==> r == Err::<Store, ConfigError>(
                ConfigError::UnknownSelection,
            ),
            r matches Ok(s) ==> s.wf() && s.view() == (StoreModel {
                selected: selected@,
                instruments: instruments.view(),
                order: instruments.order(),
            }),
    {
        if instruments.len() == 0 {
            return Err(ConfigError::EmptyCatalog);
        }
        if selected.unicode_len() > 0 && !instruments.contains(selected.as_str()) {
            return Err(ConfigError::UnknownSelection);
        }
        Ok(Store { selected, instruments })
    }

    /// The selected instrument.
    pub fn selected(&self) -> (r: &String)
        ensures
            r@ == self.view().selected,
    {
        &self.selected
    }

    /// The catalog.
    pub fn instruments(&self) -> (r: &Catalog)
        requires
            self.wf(),
        ensures
            r.wf(),
            r.view() == self.view().instruments,
            r.order() == self.view().order,
    {
        &self.instruments
    }

    /// The locator to hand to the control program when selecting `name`.
    pub fn locator_of(&self, name: &str) -> (r: Option<String>)
        requires
            self.wf(),
        ensures
            r is None <==> !self.view().instruments.contains_key(name@),
            r matches Some(l) ==> l@ == self.view().instruments[name@],
    {
        self.instruments.locator_of(name)
    }

    /// Makes `name` the selection, once the control program has run on its
    /// locator and reported `applied`. Nothing changes unless the call
    /// succeeds.
    pub fn select(&mut self, name: &str, applied: bool) -> (r: Result<(), StoreError>)
        requires
            old(self).wf(),
        ensures
            final(self).wf(),
            (final(self).view(), r) == select_model(old(self).view(), name@, applied),
    {
        if !self.instruments.contains(name) {
            return Err(StoreError::NotFound);
        }
        if !applied {
            return Err(StoreError::ControlActionFailed);
        }
        self.selected = String::from_str(name);
        Ok(())
    }
}

} // verus!
