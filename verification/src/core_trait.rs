//! Naming shared by every plugin object.
use vstd::prelude::*;

verus! {

/// The prefix that a plugin object puts before its log lines:
/// `"{type_label}-{name}-{fun_name}: "`.
pub open spec fn log_prefix_text(type_label: Seq<char>, name: Seq<char>, fun_name: Seq<char>) -> Seq<char> {
    type_label + "-"@ + name + "-"@ + fun_name + ": "@
}

/// What every plugin object offers: its instance name and its type name.
pub trait CoreTrait {
    /// The instance name.
    spec fn spec_name(&self) -> Seq<char>;

    /// The name of the object's type.
    spec fn spec_type_label(&self) -> Seq<char>;

    fn name(&self) -> (r: String)
        ensures
            r@ == self.spec_name(),
    ;

    fn type_label(&self) -> (r: String)
        ensures
            r@ == self.spec_type_label(),
    ;

    /// `"{type_label}-{name}-{fun_name}: "`, put before the log lines of `fun_name`.
    fn log_prefix(&self, fun_name: &str) -> (r: String)
        ensures
            r@ == log_prefix_text(self.spec_type_label(), self.spec_name(), fun_name@),
    {
        let mut prefix = self.type_label();
        prefix.append("-");
        let name = self.name();
        prefix.append(name.as_str());
        prefix.append("-");
        prefix.append(fun_name);
        prefix.append(": ");
        prefix
    }
}

} // verus!
