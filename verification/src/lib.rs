//! Managing a formatting hook inside git repositories.
//!
//! The library has two parts. The first finds things: the repository that
//! encloses a directory or the repositories below one (`git_repo`), the
//! directory of the build manifest (`cargo_repo`), and the languages of a
//! repository (`detect`, `file_search`), all by bounded walks through the
//! directory tree (`scan`). The second changes the hook file: it puts a
//! block of lines that the library owns into a script that it does not
//! own, switches the block off or takes it out again (`managed_block`),
//! and plans the snapshots and backups that go before a change
//! (`snapshots`, `hook_files`). `script` writes the text of the hooks,
//! `installer` and `status` put the parts together.
//!
//! The library never touches the disk, the clock aside. It is told what
//! was read, and says what is to be written: the caller does both.
//!
//! `block_proofs`, `snapshot_proofs` and `scan_proofs` hold what is proved
//! of the functions taken together.

pub mod block_proofs;
pub mod cargo_repo;
pub mod detect;
pub mod file_search;
pub mod git_repo;
pub mod hook_files;
pub mod installer;
pub mod lines;
pub mod managed_block;
pub mod names;
pub mod order;
pub mod paths;
pub mod scan;
pub mod scan_proofs;
pub mod script;
pub mod seqs;
pub mod snapshot_proofs;
pub mod snapshots;
pub mod status;
pub mod text;
pub mod types;
pub mod util;
