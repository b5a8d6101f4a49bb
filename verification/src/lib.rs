//! The engine of a git remote helper that keeps the objects and refs of a
//! repository in an S3 bucket.
//!
//! The engine decides and never acts. A [`remote::Remote`] is a session
//! with one remote: it says what is to be done next, as a
//! [`exchange::Request`], and takes what came of it, as a
//! [`exchange::Reply`]. A driver around it reads standard input, writes
//! standard output, and talks to the local repository and to the bucket.
//!
//! * [`locator`] resolves the locator of the remote.
//! * [`protocol`] reads the commands of git.
//! * [`refs`], [`fetch`] and [`push`] list the refs of the bucket, bring
//!   objects from the bucket into the local database, and copy objects into
//!   the bucket and move a ref there.
//! * [`model`] describes the two stores, and [`fetch_laws`], [`push_laws`]
//!   and [`session_laws`] state over it what holds of every run.

pub mod error;
pub mod exchange;
pub mod fetch;
pub mod fetch_laws;
pub mod locator;
pub mod model;
pub mod object;
pub mod protocol;
pub mod push;
pub mod push_laws;
pub mod refs;
pub mod remote;
pub mod session_laws;
pub mod text;
pub mod walk;
