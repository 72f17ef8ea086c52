//! Errors that stop a run before it starts.

use vstd::prelude::*;
use vstd::string::*;

verus! {

/// A fault in the configuration of a run.
#[derive(Debug, Clone, PartialEq, Eq)]
pub enum ConfigError {
    /// A column that is empty, holds something else than the letters A to Z,
    /// white space included, or lies beyond the columns a machine index can
    /// reach. Carries the text of the column in upper case.
    InvalidColumn(String),
    /// The name of the database is empty.
    MissingDatabase,
    /// The name of the collection is empty.
    MissingCollection,
}

/// A fault in the configuration of a run, over plain values.
pub enum ConfigErrorView {
    /// The text of the column, in upper case.
    InvalidColumn(Seq<char>),
    /// The name of the database is empty.
    MissingDatabase,
    /// The name of the collection is empty.
    MissingCollection,
}

impl View for ConfigError {
    type V = ConfigErrorView;

    open spec fn view(&self) -> ConfigErrorView {
        match self {
            ConfigError::InvalidColumn(s) => ConfigErrorView::InvalidColumn(s@),
            ConfigError::MissingDatabase => ConfigErrorView::MissingDatabase,
            ConfigError::MissingCollection => ConfigErrorView::MissingCollection,
        }
    }
}

/// What stops a run. The texts come from whoever met the fault.
#[derive(Debug, Clone, PartialEq, Eq)]
pub enum RunError {
    /// The configuration is at fault. Nothing was read or asked yet.
    Config(ConfigError),
    /// The address of the store cannot be read.
    MalformedUri(String),
    /// The store cannot be reached.
    Connection(String),
    /// The workbook cannot be read.
    InputFile(String),
    /// The workbook has no sheet.
    EmptyWorkbook,
    /// The output cannot be written.
    Output(String),
}

/// What stops a run, over plain values.
pub enum RunErrorView {
    /// The configuration is at fault.
    Config(ConfigErrorView),
    /// The address of the store cannot be read.
    MalformedUri(Seq<char>),
    /// The store cannot be reached.
    Connection(Seq<char>),
    /// The workbook cannot be read.
    InputFile(Seq<char>),
    /// The workbook has no sheet.
    EmptyWorkbook,
    /// The output cannot be written.
    Output(Seq<char>),
}

impl View for RunError {
    type V = RunErrorView;

    open spec fn view(&self) -> RunErrorView {
        match self {
            RunError::Config(e) => RunErrorView::Config(e@),
            RunError::MalformedUri(s) => RunErrorView::MalformedUri(s@),
            RunError::Connection(s) => RunErrorView::Connection(s@),
            RunError::InputFile(s) => RunErrorView::InputFile(s@),
            RunError::EmptyWorkbook => RunErrorView::EmptyWorkbook,
            RunError::Output(s) => RunErrorView::Output(s@),
        }
    }
}

/// The kinds of fault that a message tells apart.
#[derive(Debug, Clone, Copy, PartialEq, Eq)]
pub enum FaultKind {
    /// The configuration.
    Config,
    /// The address of the store.
    MalformedUri,
    /// The connection to the store.
    Connection,
    /// The workbook that is read.
    InputFile,
    /// The workbook that is written.
    Output,
}

impl RunErrorView {
    /// The kind of the fault.
    pub open spec fn kind(self) -> FaultKind {
        match self {
            RunErrorView::Config(_) => FaultKind::Config,
            RunErrorView::MalformedUri(_) => FaultKind::MalformedUri,
            RunErrorView::Connection(_) => FaultKind::Connection,
            RunErrorView::InputFile(_) => FaultKind::InputFile,
            RunErrorView::EmptyWorkbook => FaultKind::InputFile,
            RunErrorView::Output(_) => FaultKind::Output,
        }
    }

    /// The message of the fault.
    pub open spec fn message(self) -> Seq<char> {
        match self {
            RunErrorView::Config(e) => e.message(),
            RunErrorView::MalformedUri(s) => "URI no válida: "@ + s,
            RunErrorView::Connection(s) => "Sin conexión: "@ + s,
            RunErrorView::InputFile(s) => "Error Excel: "@ + s,
            RunErrorView::EmptyWorkbook => "Excel vacío"@,
            RunErrorView::Output(s) => "No se pudo guardar: "@ + s,
        }
    }
}

impl ConfigErrorView {
    /// The message of the fault.
    pub open spec fn message(self) -> Seq<char> {
        match self {
            ConfigErrorView::InvalidColumn(letters) => "Columna mal: "@ + letters,
            ConfigErrorView::MissingDatabase => "Faltan datos de BD."@,
            ConfigErrorView::MissingCollection => "Faltan datos de BD."@,
        }
    }
}

impl ConfigError {
    /// The message of the fault.
    pub fn message(&self) -> (r: String)
        ensures
            r@ == self@.message(),
    {
        match self {
            ConfigError::InvalidColumn(letters) => {
                let mut text = "Columna mal: ".to_owned();
                text.append(letters.as_str());
                text
            },
            ConfigError::MissingDatabase => "Faltan datos de BD.".to_owned(),
            ConfigError::MissingCollection => "Faltan datos de BD.".to_owned(),
        }
    }
}

impl RunError {
    /// The kind of the fault.
    pub fn kind(&self) -> (r: FaultKind)
        ensures
            r == self@.kind(),
    {
        match self {
            RunError::Config(_) => FaultKind::Config,
            RunError::MalformedUri(_) => FaultKind::MalformedUri,
            RunError::Connection(_) => FaultKind::Connection,
            RunError::InputFile(_) => FaultKind::InputFile,
            RunError::EmptyWorkbook => FaultKind::InputFile,
            RunError::Output(_) => FaultKind::Output,
        }
    }

    /// The message of the fault.
    pub fn message(&self) -> (r: String)
        ensures
            r@ == self@.message(),
    {
        match self {
            RunError::Config(e) => e.message(),
            RunError::MalformedUri(s) => {
                let mut text = "URI no válida: ".to_owned();
                text.append(s.as_str());
                text
            },
            RunError::Connection(s) => {
                let mut text = "Sin conexión: ".to_owned();
                text.append(s.as_str());
                text
            },
            RunError::InputFile(s) => {
                let mut text = "Error Excel: ".to_owned();
                text.append(s.as_str());
                text
            },
            RunError::EmptyWorkbook => "Excel vacío".to_owned(),
            RunError::Output(s) => {
                let mut text = "No se pudo guardar: ".to_owned();
                text.append(s.as_str());
                text
            },
        }
    }
}

/// The message shows the kind of the fault: faults of two kinds never have
/// the same message, whatever texts they carry.
pub proof fn lemma_message_shows_kind(a: RunErrorView, b: RunErrorView)
    requires
        a.kind() != b.kind(),
    ensures
        a.message() != b.message(),
{
    reveal_strlit("Columna mal: ");
    reveal_strlit("Faltan datos de BD.");
    reveal_strlit("URI no válida: ");
    reveal_strlit("Sin conexión: ");
    reveal_strlit("Error Excel: ");
    reveal_strlit("Excel vacío");
    reveal_strlit("No se pudo guardar: ");
    let x = a.message();
    let y = b.message();
    assert(x.len() > 0 && y.len() > 0);
    assert(x[0] != y[0]);
}

} // verus!
