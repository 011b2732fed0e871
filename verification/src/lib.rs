//! Addressing and error-propagation core for a declarative contract compiler:
//! fragments of tree-node identity, persistent paths of fragments, a canonical
//! text codec for paths, and the unified compilation error taxonomy.
pub mod codec;
pub mod error;
pub mod fragment;
pub mod path;

pub use error::CompilationError;
pub use error::CustomError;
pub use error::EffectDBError;
pub use error::LockTimeError;
pub use error::ObjectError;
pub use fragment::FragErrView;
pub use fragment::FragView;
pub use fragment::PathFragment;
pub use fragment::ValidFragmentError;
pub use path::Path;

