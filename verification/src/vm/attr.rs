//! Attributes.
//!
//! Getting and setting an attribute is up to the object. The instructions here take what
//! that came to, with the operands still on the stack.

use vstd::prelude::*;
use crate::error::{outcome, ErrorView, Message, MessageView, RunError, RunResult};
use crate::ids::StringId;
use crate::types::ExcType;
use crate::value::Value;
use crate::vm::call_result::{AttrCallResult, CallResult};
use crate::vm::VM;

verus! {

/// What an attribute access asks for, as the result of an instruction.
pub open spec fn attr_outcome(r: RunResult<AttrCallResult>) -> Result<CallResult, ErrorView> {
    match r {
        Ok(x) => Ok(vstd::std_specs::convert::FromSpec::from_spec(x)),
        Err(e) => Err(e@),
    }
}

impl<'a, T> VM<'a, T> {
    /// Gets an attribute of the object on top, which is used up.
    ///
    /// `got` is what getting the attribute came to.
    pub fn load_attr(&mut self, got: RunResult<AttrCallResult>) -> (r: RunResult<CallResult>)
        requires
            old(self)@.stack.len() >= 1,
        ensures
            final(self)@ == old(self)@.popped(1).release(old(self)@.top(0)),
            outcome(r) == attr_outcome(got),
    {
        let obj: Value = self.pop();
        obj.drop_with_heap(&mut self.heap);
        match got {
            Ok(x) => Ok(CallResult::from(x)),
            Err(e) => Err(e),
        }
    }

    /// Gets an attribute of the module on top for an import, which uses the module up.
    ///
    /// A missing attribute is an import error.
    pub fn load_attr_import(
        &mut self,
        name_id: StringId,
        got: RunResult<AttrCallResult>,
        module_name: String,
    ) -> (r: RunResult<CallResult>)
        requires
            old(self)@.stack.len() >= 1,
        ensures
            final(self)@ == old(self)@.popped(1).release(old(self)@.top(0)),
            outcome(r) == (match got {
                Err(RunError::Exc(raise)) if raise@.exc.exc_type == ExcType::AttributeError => Err(
                    ErrorView::raised(
                        ExcType::ImportError,
                        MessageView::CannotImport(name_id, module_name@),
                    ),
                ),
                _ => attr_outcome(got),
            }),
    {
        let obj: Value = self.pop();
        obj.drop_with_heap(&mut self.heap);
        match got {
            Ok(x) => Ok(CallResult::from(x)),
            Err(RunError::Exc(raise)) => if raise.exc.exc_type() == ExcType::AttributeError {
                Err(
                    RunError::message(
                        ExcType::ImportError,
                        Message::CannotImport(name_id, module_name),
                    ),
                )
            } else {
                Err(RunError::Exc(raise))
            },
            Err(e) => Err(e),
        }
    }

    /// Sets an attribute of the object on top to the value below it.
    ///
    /// `done` is what setting the attribute came to, which has used up the value.
    pub fn store_attr(&mut self, done: RunResult<()>) -> (r: RunResult<()>)
        requires
            old(self)@.stack.len() >= 2,
        ensures
            final(self)@ == old(self)@.popped(2).release(old(self)@.top(0)),
            r == done,
    {
        let obj: Value = self.pop();
        let _ = self.pop();
        assert(self@.stack =~= old(self)@.popped(2).stack);
        obj.drop_with_heap(&mut self.heap);
        done
    }
}

} // verus!
