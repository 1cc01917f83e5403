//! A runtime dependency-injection container with a verified resolution engine.
//!
//! The container maps abstract capability types ("interfaces", identified by
//! [`TypeToken`]s) to concrete producers ([`Builder`]s), resolves object graphs
//! on demand, enforces lifetime discipline through [`ScopeKind`]s, and can
//! statically validate a graph for completeness, ambiguity and scope safety
//! before it is used.
//!
//! Shared ownership is modelled explicitly so that every step of resolution is
//! a mathematical function of plain data:
//! * the [`Registry`] owns what reference-counted catalog maps would own:
//!   builder records, catalog layers and type names;
//! * the [`Store`] owns what lock-guarded scope slots would own: constructed
//!   instances (numbered by serial) and the singleton / transaction caches.
//!
//! A [`Catalog`] is then a cheap handle onto a registry layer, and chaining a
//! catalog adds a new layer without touching its parent.

pub mod api;
pub mod builder;
pub mod catalog;
pub mod context;
pub mod deps;
pub mod errors;
pub mod laws;
pub mod render;
pub mod resolve;
pub mod scopes;
pub mod store;
pub mod token;
pub mod validate;

pub use builder::Builder;
pub use builder::BuilderExt;
pub use builder::Factory;
pub use builder::LazyBuilder;
pub use builder::Prebuilt;
pub use builder::TypedBuilderWithoudDefaultInterfaces;
pub use catalog::Binding;
pub use catalog::Catalog;
pub use catalog::CatalogBuilder;
pub use catalog::CatalogWeakRef;
pub use catalog::Layer;
pub use catalog::LocalBinding;
pub use catalog::Registry;
pub use context::InjectionContext;
pub use context::InjectionStack;
pub use context::InjectionStackFrame;
pub use deps::AllOf;
pub use deps::DepKind;
pub use deps::Dependency;
pub use deps::Maybe;
pub use deps::OneOf;
pub use deps::SpecTag;
pub use errors::AmbiguousTypeError;
pub use errors::CyclicDependencyError;
pub use errors::InjectionError;
pub use errors::InjectionErrorV;
pub use errors::ScopeInversionError;
pub use errors::UnregisteredTypeError;
pub use errors::ValidationError;
pub use errors::ValidationErrorExt;
pub use resolve::sp_get;
pub use scopes::Agnostic;
pub use scopes::Cache;
pub use scopes::CacheImpl;
pub use scopes::Cached;
pub use scopes::Scope;
pub use scopes::ScopeKind;
pub use scopes::Singleton;
pub use scopes::TransactionCache;
pub use scopes::Transient;
pub use store::DepValue;
pub use store::DepValueV;
pub use store::Instance;
pub use store::InstanceV;
pub use store::Lazy;
pub use store::SingletonSlot;
pub use store::Store;
pub use store::StoreV;
pub use store::TxSlot;
pub use token::InterfaceDesc;
pub use token::TypeToken;
pub use token::CATALOG_TYPE_ID;
pub use token::CATALOG_WEAK_TYPE_ID;
