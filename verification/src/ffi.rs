//! What other languages see of write contexts.
use std::sync::Arc;
use vstd::prelude::*;

use crate::expressions::share;
use crate::schema::types::SchemaRef;
use crate::table_url::text_of_url;
use crate::text::owned;
use crate::write_context::WriteContext;

#[allow(unused_imports)]
use crate::table_url::url_text;

verus! {

/// A [`WriteContext`] that provides schema and path information needed for writing data. This is a
/// shared reference that can be used across multiple consumers.
pub struct SharedWriteContext {
    context: Arc<WriteContext>,
}

impl View for SharedWriteContext {
    type V = WriteContext;

    closed spec fn view(&self) -> WriteContext {
        *self.context
    }
}

impl SharedWriteContext {
    /// Shares a write context.
    pub fn new(context: WriteContext) -> (r: Self)
        ensures
            r@ == context,
    {
        SharedWriteContext { context: Arc::new(context) }
    }

    /// One more reference to the same write context.
    pub fn share(&self) -> (r: Self)
        ensures
            r@ == self@,
    {
        SharedWriteContext { context: share(&self.context) }
    }
}

/// Get the logical schema of a write context.
pub fn get_write_schema(write_context: &SharedWriteContext) -> (r: SchemaRef)
    ensures
        r == write_context@.shared.logical_schema,
{
    share(write_context.context.logical_schema())
}

/// Get the table root URL of a write context: the table root, not the recommended write directory
/// (which may have Hive-style partition paths or random prefixes).
pub fn get_write_path(write_context: &SharedWriteContext) -> (r: String)
    ensures
        r@ == url_text(write_context@.shared.table_root),
{
    owned(text_of_url(write_context.context.table_root_dir()))
}

} // verus!
