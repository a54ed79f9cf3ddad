//! The proxy's own tool, `mcp.wrapper`: its description, its actions and what they
//! answer.

pub mod backend;
pub mod schema;
pub mod wrapper;

pub use backend::InvocationContext;
pub use wrapper::{is_wrapper_tool_call, merge_initialize_result, merge_tools_list};
