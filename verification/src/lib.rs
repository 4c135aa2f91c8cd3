//! A request dispatcher for HTTP routers: path patterns, scoped
//! middleware and shared data, and the per-request decision of which
//! handlers run, in what order, and how failures become responses.
//!
//! The library never performs I/O and never calls a handler itself. Handlers
//! are carried as opaque values; a driver runs them and reports back what
//! happened, and the library answers with the next thing to do.
//!
//! - `pattern` compiles path patterns and reads parameters off a match;
//!   `regexp` holds what is taken on trust from the expression engine,
//!   the `regex` crate.
//! - `path` brings request paths into the form that patterns are written
//!   for.
//! - `route` and `middleware` are the items a router holds; `data_map` is
//!   the store of the values it shares with its handlers.
//! - `router` puts routers together, merges mounted routers into one flat
//!   router, and states what holds of the result.
//! - `dispatch` is the state machine that decides, request by request, what
//!   runs next, with the laws it obeys; `service` hands it to connections.

pub mod assoc;
pub mod data_map;
pub mod dispatch;
pub mod error;
pub mod method;
pub mod middleware;
pub mod params;
pub mod path;
pub mod pattern;
pub mod regexp;
pub mod route;
pub mod router;
pub mod service;
pub mod text;
pub mod types;

pub use crate::data_map::DataMap;
pub use crate::dispatch::{Action, Dispatch, Event, Fallback, Phase};
pub use crate::error::{BuildError, CompileError, DispatchError};
pub use crate::method::{Method, MethodSet};
pub use crate::middleware::post::PostMiddleware;
pub use crate::middleware::pre::PreMiddleware;
pub use crate::middleware::Middleware;
pub use crate::params::RouteParams;
pub use crate::route::Route;
pub use crate::router::{Router, RouterBuilder};
pub use crate::service::{RequestService, RequestServiceBuilder, RouterService};
pub use crate::types::{RemoteAddr, RequestMeta};
