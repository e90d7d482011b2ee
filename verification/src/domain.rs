//! The data carriers and collaborator interfaces of the catalog: screenshot
//! records, the storage and OS interfaces the sessions call through, and the
//! use-case error taxonomy. The implementations of the interfaces (SQL
//! storage, OS window calls) live outside the library.

use vstd::prelude::*;

verus! {

/// A stored screenshot record of one game's archive.
#[derive(Debug, Clone)]
pub struct Screenshot {
    pub id: i32,
    pub game_id: i32,
    pub filename: String,
    pub order_index: i32,
    pub created_at: String,
}

/// A storage operation failed. Callers in the monitor and the watcher treat
/// this as best-effort: log and carry on.
#[derive(Debug, Clone, Copy, PartialEq, Eq, Structural)]
pub struct StorageError;

/// An OS call failed.
#[derive(Debug, Clone, Copy, PartialEq, Eq, Structural)]
pub struct OsCallError;

/// The screenshot store of the catalog, implemented by the storage layer
/// outside the library.
pub trait ScreenshotRepository {
    /// All screenshots of one game, ordered by order index.
    fn get_by_game_id(&self, game_id: i32) -> Result<Vec<Screenshot>, StorageError>;

    /// One screenshot by its id.
    fn get_by_id(&self, id: i32) -> Result<Option<Screenshot>, StorageError>;

    /// Record a new screenshot of a game, under the next order index for
    /// that game.
    fn insert(&self, game_id: i32, filename: &str) -> Result<(), StorageError>;

    /// Remove one screenshot record.
    fn delete(&self, id: i32) -> Result<(), StorageError>;

    /// Move one screenshot to a new order index.
    fn update_order(&self, id: i32, order_index: i32) -> Result<(), StorageError>;
}

/// Window and screenshot calls of the host OS, implemented outside the
/// library.
pub trait ProcessWindows {
    /// Save a screenshot of the windows of one process.
    fn save_screenshot_by_process_id(&self, process_id: u32, filepath: &str) -> Result<
        (),
        OsCallError,
    >;

    /// Save a screenshot of the foreground window.
    fn save_top_window_screenshot(&self, filepath: &str) -> Result<(), OsCallError>;

    /// The title of the foreground window.
    fn get_top_window_name(&self) -> Result<String, OsCallError>;
}

/// The error taxonomy of the catalog use-cases.
#[derive(Debug, Clone, PartialEq, Eq)]
pub enum UseCaseError {
    /// The named collection does not exist.
    CollectionIsNotFound,
    /// The collection is built in and cannot be deleted.
    CollectionNotPermittedToDelete,
    /// A collection of that name already exists.
    CollectionIsAlreadyExist,
    /// The catalog entry does not exist.
    CollectionElementIsNotFound,
    /// The given path holds no launchable file.
    IsNotValidPath(String),
}

/// What a shortcut file yields for a new catalog entry.
pub struct Metadata {
    pub exe_path: String,
    pub icon_path: String,
}

/// One row of the downloaded game-name cache.
pub struct AllGameCacheOne {
    pub id: i32,
    pub gamename: String,
}

/// Everything needed to create one new catalog entry.
pub struct NewElementContext {
    pub metadata: Metadata,
    pub game_cache: AllGameCacheOne,
    pub lnk_path: Option<String>,
    pub exe_path: Option<String>,
}

} // verus!
