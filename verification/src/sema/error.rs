//! What the checker finds wrong with a program, and what it warns of.

use crate::text::{cat3, cat5, cat7, decimal, decimal_text, owned};
use vstd::prelude::*;

verus! {

/// A violated rule of the language.
#[derive(Debug, Clone, PartialEq, Eq)]
pub enum SemaError {
    NotDefinitelyAssigned(String),
    NullToNonNullable(String),
    NotAssignable(String, String),
    AutoWithoutInitializer,
    BadCast(String, String),
    BadConcatenation(String),
    BadBinaryOperator(String, String, String),
    BadUnaryOperator(String, String),
    DuplicateMethod(String, String),
    DiamondInterfaceConflict(String, String, String, String),
    DuplicateClass(String),
    ThisCallNotFirst,
    DelegationCycle(String),
    MatchNotExhaustive(String),
    UnreachableCatch(String, String),
    UnhandledCheckedException(String),
    MissingThrowsInOverride(String, String),
    ExtraThrowsInOverride(String, String),
    NoMainMethod,
    MultipleMainMethods,
    BadMainSignature,
    StaticContextMisuse(String),
    DuplicateImportSymbol(String),
    NonNullableArrayFixedSize(String),
    MemberNotAccessible(String, String, String),
    MissingVisibilityModifier(String),
    PropertyNotInitialized(String, String),
    ConstMethodPropertyModification(String),
    ConstMethodNonConstCall(String),
    MethodMustBeConst(String, String),
    ConstModification(String),
    ConstLoopVariableModification(String),
    TemplateBoundNotSatisfied(String, String, String),
    TemplateOperatorUnsupported(String, String, String),
    ReadonlyClassModification(String, String),
    ReadonlyPropertyModification(String),
    InstantiateAbstractClass(String),
    ClassMustBeAbstract(String, String),
    AbstractMethodHasBody(String),
    ExtendFinalClass(String),
    OverrideFinalMethod(String),
    ConflictingModifiers(String),
    NonContiguousArrayDimensionOmission(String),
    RequiredParamNotProvided(String),
    PositionalArgAfterNamed,
    ParamProvidedTwice(String),
    DefaultNotConstant(String),
    RefArgNotVariable(String),
    MissingRefKeyword(String),
    OptionalCannotBeRef,
}

/// An error with its texts as sequences of characters.
pub enum ErrorView {
    NotDefinitelyAssigned(Seq<char>),
    NullToNonNullable(Seq<char>),
    NotAssignable(Seq<char>, Seq<char>),
    AutoWithoutInitializer,
    BadCast(Seq<char>, Seq<char>),
    BadConcatenation(Seq<char>),
    BadBinaryOperator(Seq<char>, Seq<char>, Seq<char>),
    BadUnaryOperator(Seq<char>, Seq<char>),
    DuplicateMethod(Seq<char>, Seq<char>),
    DiamondInterfaceConflict(Seq<char>, Seq<char>, Seq<char>, Seq<char>),
    DuplicateClass(Seq<char>),
    ThisCallNotFirst,
    DelegationCycle(Seq<char>),
    MatchNotExhaustive(Seq<char>),
    UnreachableCatch(Seq<char>, Seq<char>),
    UnhandledCheckedException(Seq<char>),
    MissingThrowsInOverride(Seq<char>, Seq<char>),
    ExtraThrowsInOverride(Seq<char>, Seq<char>),
    NoMainMethod,
    MultipleMainMethods,
    BadMainSignature,
    StaticContextMisuse(Seq<char>),
    DuplicateImportSymbol(Seq<char>),
    NonNullableArrayFixedSize(Seq<char>),
    MemberNotAccessible(Seq<char>, Seq<char>, Seq<char>),
    MissingVisibilityModifier(Seq<char>),
    PropertyNotInitialized(Seq<char>, Seq<char>),
    ConstMethodPropertyModification(Seq<char>),
    ConstMethodNonConstCall(Seq<char>),
    MethodMustBeConst(Seq<char>, Seq<char>),
    ConstModification(Seq<char>),
    ConstLoopVariableModification(Seq<char>),
    TemplateBoundNotSatisfied(Seq<char>, Seq<char>, Seq<char>),
    TemplateOperatorUnsupported(Seq<char>, Seq<char>, Seq<char>),
    ReadonlyClassModification(Seq<char>, Seq<char>),
    ReadonlyPropertyModification(Seq<char>),
    InstantiateAbstractClass(Seq<char>),
    ClassMustBeAbstract(Seq<char>, Seq<char>),
    AbstractMethodHasBody(Seq<char>),
    ExtendFinalClass(Seq<char>),
    OverrideFinalMethod(Seq<char>),
    ConflictingModifiers(Seq<char>),
    NonContiguousArrayDimensionOmission(Seq<char>),
    RequiredParamNotProvided(Seq<char>),
    PositionalArgAfterNamed,
    ParamProvidedTwice(Seq<char>),
    DefaultNotConstant(Seq<char>),
    RefArgNotVariable(Seq<char>),
    MissingRefKeyword(Seq<char>),
    OptionalCannotBeRef,
}

impl View for SemaError {
    type V = ErrorView;

    open spec fn view(&self) -> ErrorView {
        match *self {
            SemaError::NotDefinitelyAssigned(a) => ErrorView::NotDefinitelyAssigned(a@),
            SemaError::NullToNonNullable(a) => ErrorView::NullToNonNullable(a@),
            SemaError::NotAssignable(a, b) => ErrorView::NotAssignable(a@, b@),
            SemaError::AutoWithoutInitializer => ErrorView::AutoWithoutInitializer,
            SemaError::BadCast(a, b) => ErrorView::BadCast(a@, b@),
            SemaError::BadConcatenation(a) => ErrorView::BadConcatenation(a@),
            SemaError::BadBinaryOperator(a, b, c) => ErrorView::BadBinaryOperator(a@, b@, c@),
            SemaError::BadUnaryOperator(a, b) => ErrorView::BadUnaryOperator(a@, b@),
            SemaError::DuplicateMethod(a, b) => ErrorView::DuplicateMethod(a@, b@),
            SemaError::DiamondInterfaceConflict(a, b, c, d) => ErrorView::DiamondInterfaceConflict(a@, b@, c@, d@),
            SemaError::DuplicateClass(a) => ErrorView::DuplicateClass(a@),
            SemaError::ThisCallNotFirst => ErrorView::ThisCallNotFirst,
            SemaError::DelegationCycle(a) => ErrorView::DelegationCycle(a@),
            SemaError::MatchNotExhaustive(a) => ErrorView::MatchNotExhaustive(a@),
            SemaError::UnreachableCatch(a, b) => ErrorView::UnreachableCatch(a@, b@),
            SemaError::UnhandledCheckedException(a) => ErrorView::UnhandledCheckedException(a@),
            SemaError::MissingThrowsInOverride(a, b) => ErrorView::MissingThrowsInOverride(a@, b@),
            SemaError::ExtraThrowsInOverride(a, b) => ErrorView::ExtraThrowsInOverride(a@, b@),
            SemaError::NoMainMethod => ErrorView::NoMainMethod,
            SemaError::MultipleMainMethods => ErrorView::MultipleMainMethods,
            SemaError::BadMainSignature => ErrorView::BadMainSignature,
            SemaError::StaticContextMisuse(a) => ErrorView::StaticContextMisuse(a@),
            SemaError::DuplicateImportSymbol(a) => ErrorView::DuplicateImportSymbol(a@),
            SemaError::NonNullableArrayFixedSize(a) => ErrorView::NonNullableArrayFixedSize(a@),
            SemaError::MemberNotAccessible(a, b, c) => ErrorView::MemberNotAccessible(a@, b@, c@),
            SemaError::MissingVisibilityModifier(a) => ErrorView::MissingVisibilityModifier(a@),
            SemaError::PropertyNotInitialized(a, b) => ErrorView::PropertyNotInitialized(a@, b@),
            SemaError::ConstMethodPropertyModification(a) => ErrorView::ConstMethodPropertyModification(a@),
            SemaError::ConstMethodNonConstCall(a) => ErrorView::ConstMethodNonConstCall(a@),
            SemaError::MethodMustBeConst(a, b) => ErrorView::MethodMustBeConst(a@, b@),
            SemaError::ConstModification(a) => ErrorView::ConstModification(a@),
            SemaError::ConstLoopVariableModification(a) => ErrorView::ConstLoopVariableModification(a@),
            SemaError::TemplateBoundNotSatisfied(a, b, c) => ErrorView::TemplateBoundNotSatisfied(a@, b@, c@),
            SemaError::TemplateOperatorUnsupported(a, b, c) => ErrorView::TemplateOperatorUnsupported(a@, b@, c@),
            SemaError::ReadonlyClassModification(a, b) => ErrorView::ReadonlyClassModification(a@, b@),
            SemaError::ReadonlyPropertyModification(a) => ErrorView::ReadonlyPropertyModification(a@),
            SemaError::InstantiateAbstractClass(a) => ErrorView::InstantiateAbstractClass(a@),
            SemaError::ClassMustBeAbstract(a, b) => ErrorView::ClassMustBeAbstract(a@, b@),
            SemaError::AbstractMethodHasBody(a) => ErrorView::AbstractMethodHasBody(a@),
            SemaError::ExtendFinalClass(a) => ErrorView::ExtendFinalClass(a@),
            SemaError::OverrideFinalMethod(a) => ErrorView::OverrideFinalMethod(a@),
            SemaError::ConflictingModifiers(a) => ErrorView::ConflictingModifiers(a@),
            SemaError::NonContiguousArrayDimensionOmission(a) => ErrorView::NonContiguousArrayDimensionOmission(a@),
            SemaError::RequiredParamNotProvided(a) => ErrorView::RequiredParamNotProvided(a@),
            SemaError::PositionalArgAfterNamed => ErrorView::PositionalArgAfterNamed,
            SemaError::ParamProvidedTwice(a) => ErrorView::ParamProvidedTwice(a@),
            SemaError::DefaultNotConstant(a) => ErrorView::DefaultNotConstant(a@),
            SemaError::RefArgNotVariable(a) => ErrorView::RefArgNotVariable(a@),
            SemaError::MissingRefKeyword(a) => ErrorView::MissingRefKeyword(a@),
            SemaError::OptionalCannotBeRef => ErrorView::OptionalCannotBeRef,
        }
    }
}

impl ErrorView {
    /// The code of the violated rule.
    pub open spec fn code(self) -> Seq<char> {
        match self {
            ErrorView::NotDefinitelyAssigned(_) => "E001"@,
            ErrorView::NullToNonNullable(_) => "E003"@,
            ErrorView::NotAssignable(_, _) => "E004"@,
            ErrorView::AutoWithoutInitializer => "E005"@,
            ErrorView::BadCast(_, _) => "E007"@,
            ErrorView::BadConcatenation(_) => "E008"@,
            ErrorView::BadBinaryOperator(_, _, _) => "E009"@,
            ErrorView::BadUnaryOperator(_, _) => "E009"@,
            ErrorView::DuplicateMethod(_, _) => "E041"@,
            ErrorView::DiamondInterfaceConflict(_, _, _, _) => "E041"@,
            ErrorView::DuplicateClass(_) => "E042"@,
            ErrorView::ThisCallNotFirst => "E045"@,
            ErrorView::DelegationCycle(_) => "E046"@,
            ErrorView::MatchNotExhaustive(_) => "E047"@,
            ErrorView::UnreachableCatch(_, _) => "E048"@,
            ErrorView::UnhandledCheckedException(_) => "E015"@,
            ErrorView::MissingThrowsInOverride(_, _) => "E016"@,
            ErrorView::ExtraThrowsInOverride(_, _) => "E017"@,
            ErrorView::NoMainMethod => "E027"@,
            ErrorView::MultipleMainMethods => "E028"@,
            ErrorView::BadMainSignature => "E029"@,
            ErrorView::StaticContextMisuse(_) => "E040"@,
            ErrorView::DuplicateImportSymbol(_) => "E043"@,
            ErrorView::NonNullableArrayFixedSize(_) => "E031"@,
            ErrorView::MemberNotAccessible(_, _, _) => "E018"@,
            ErrorView::MissingVisibilityModifier(_) => "E019"@,
            ErrorView::PropertyNotInitialized(_, _) => "E002"@,
            ErrorView::ConstMethodPropertyModification(_) => "E010"@,
            ErrorView::ConstMethodNonConstCall(_) => "E011"@,
            ErrorView::MethodMustBeConst(_, _) => "E044"@,
            ErrorView::ConstModification(_) => "E012"@,
            ErrorView::ConstLoopVariableModification(_) => "E039"@,
            ErrorView::TemplateBoundNotSatisfied(_, _, _) => "E037"@,
            ErrorView::TemplateOperatorUnsupported(_, _, _) => "E006"@,
            ErrorView::ReadonlyClassModification(_, _) => "E013"@,
            ErrorView::ReadonlyPropertyModification(_) => "E014"@,
            ErrorView::InstantiateAbstractClass(_) => "E032"@,
            ErrorView::ClassMustBeAbstract(_, _) => "E033"@,
            ErrorView::AbstractMethodHasBody(_) => "E034"@,
            ErrorView::ExtendFinalClass(_) => "E035"@,
            ErrorView::OverrideFinalMethod(_) => "E036"@,
            ErrorView::ConflictingModifiers(_) => "E049"@,
            ErrorView::NonContiguousArrayDimensionOmission(_) => "E038"@,
            ErrorView::RequiredParamNotProvided(_) => "E023"@,
            ErrorView::PositionalArgAfterNamed => "E024"@,
            ErrorView::ParamProvidedTwice(_) => "E025"@,
            ErrorView::DefaultNotConstant(_) => "E026"@,
            ErrorView::RefArgNotVariable(_) => "E020"@,
            ErrorView::MissingRefKeyword(_) => "E021"@,
            ErrorView::OptionalCannotBeRef => "E022"@,
        }
    }

    /// What is said of the error after its code.
    pub open spec fn detail(self) -> Seq<char> {
        match self {
            ErrorView::NotDefinitelyAssigned(a) => {
                "Variable '"@
                    + a
                    + "' may not have been initialized"@
            },
            ErrorView::NullToNonNullable(a) => {
                "Cannot assign 'null' to type '"@
                    + a
                    + "' (type does not include null)"@
            },
            ErrorView::NotAssignable(a, b) => {
                "Type '"@
                    + a
                    + "' is not assignable to '"@
                    + b
                    + "'"@
            },
            ErrorView::AutoWithoutInitializer => "Cannot use 'auto' without an initializer"@,
            ErrorView::BadCast(a, b) => "Cannot cast '"@ + a + "' to '"@ + b + "'"@,
            ErrorView::BadConcatenation(a) => {
                "Cannot concatenate 'string' with type '"@
                    + a
                    + "' (type does not implement Stringable)"@
            },
            ErrorView::BadBinaryOperator(a, b, c) => {
                "Operator '"@
                    + a
                    + "' is not defined for types '"@
                    + b
                    + "' and '"@
                    + c
                    + "'"@
            },
            ErrorView::BadUnaryOperator(a, b) => {
                "Operator '"@
                    + a
                    + "' is not defined for type '"@
                    + b
                    + "'"@
            },
            ErrorView::DuplicateMethod(a, b) => {
                "Duplicate method '"@
                    + a
                    + "' with identical signature in class '"@
                    + b
                    + "'"@
            },
            ErrorView::DiamondInterfaceConflict(a, b, c, d) => {
                "Method '"@
                    + a
                    + "' is inherited from both '"@
                    + b
                    + "' and '"@
                    + c
                    + "' with different return types (diamond merge in '"@
                    + d
                    + "')"@
            },
            ErrorView::DuplicateClass(a) => "Duplicate class definition '"@ + a + "'"@,
            ErrorView::ThisCallNotFirst => {
                "'this(...)' delegation call must be the first statement of the constructor"@
            },
            ErrorView::DelegationCycle(a) => {
                "Constructor delegation cycle in class '"@
                    + a
                    + "'"@
            },
            ErrorView::MatchNotExhaustive(a) => {
                "Match expression is not exhaustive (missing '"@
                    + a
                    + "')"@
            },
            ErrorView::UnreachableCatch(a, b) => {
                "Unreachable catch clause: '"@
                    + a
                    + "' is already caught by earlier clause '"@
                    + b
                    + "'"@
            },
            ErrorView::UnhandledCheckedException(a) => {
                "Unhandled checked exception '"@
                    + a
                    + "' — must be caught or declared in 'throws'"@
            },
            ErrorView::MissingThrowsInOverride(a, b) => {
                "Overriding method '"@
                    + a
                    + "' does not declare exception '"@
                    + b
                    + "' from parent method"@
            },
            ErrorView::ExtraThrowsInOverride(a, b) => {
                "Overriding method '"@
                    + a
                    + "' declares exception '"@
                    + b
                    + "' not thrown by parent method"@
            },
            ErrorView::NoMainMethod => "No 'main' method found"@,
            ErrorView::MultipleMainMethods => "Multiple 'main' methods found"@,
            ErrorView::BadMainSignature => {
                "'main' method has incorrect signature (expected: public static int main(string[]))"@
            },
            ErrorView::StaticContextMisuse(a) => {
                "Cannot use '"@
                    + a
                    + "' in a static context"@
            },
            ErrorView::DuplicateImportSymbol(a) => {
                "Import creates duplicate symbol '"@
                    + a
                    + "'"@
            },
            ErrorView::NonNullableArrayFixedSize(a) => {
                "Cannot create array of non-nullable type '"@
                    + a
                    + "' with fixed size (no default value)"@
            },
            ErrorView::MemberNotAccessible(a, b, c) => {
                "Member '"@
                    + a
                    + "' is not accessible from '"@
                    + b
                    + "' (visibility: "@
                    + c
                    + ")"@
            },
            ErrorView::MissingVisibilityModifier(a) => {
                "Missing visibility modifier on member '"@
                    + a
                    + "'"@
            },
            ErrorView::PropertyNotInitialized(a, b) => {
                "Property '"@
                    + a
                    + "' of non-nullable type '"@
                    + b
                    + "' is not initialized in constructor"@
            },
            ErrorView::ConstMethodPropertyModification(a) => {
                "Cannot modify property '"@
                    + a
                    + "' in a const method"@
            },
            ErrorView::ConstMethodNonConstCall(a) => {
                "Cannot call non-const method '"@
                    + a
                    + "' in a const method"@
            },
            ErrorView::MethodMustBeConst(a, b) => {
                "Method '"@
                    + a
                    + "' implementing interface '"@
                    + b
                    + "' must be declared const"@
            },
            ErrorView::ConstModification(a) => "Cannot modify const variable '"@ + a + "'"@,
            ErrorView::ConstLoopVariableModification(a) => {
                "Cannot modify loop variable '"@
                    + a
                    + "' — implicitly const when iterating over read-only collection"@
            },
            ErrorView::TemplateBoundNotSatisfied(a, b, c) => {
                "Type '"@
                    + a
                    + "' does not satisfy bound '"@
                    + b
                    + "' (required by template '"@
                    + c
                    + "')"@
            },
            ErrorView::TemplateOperatorUnsupported(a, b, c) => {
                "Type '"@
                    + a
                    + "' does not support operator '"@
                    + b
                    + "' (required by template '"@
                    + c
                    + "')"@
            },
            ErrorView::ReadonlyClassModification(a, b) => {
                "Cannot modify property '"@
                    + a
                    + "' of readonly class '"@
                    + b
                    + "'"@
            },
            ErrorView::ReadonlyPropertyModification(a) => {
                "Cannot modify readonly property '"@
                    + a
                    + "'"@
            },
            ErrorView::InstantiateAbstractClass(a) => {
                "Cannot instantiate abstract class '"@
                    + a
                    + "'"@
            },
            ErrorView::ClassMustBeAbstract(a, b) => {
                "Class '"@
                    + a
                    + "' must be declared abstract (has unimplemented abstract method '"@
                    + b
                    + "')"@
            },
            ErrorView::AbstractMethodHasBody(a) => {
                "Abstract method '"@
                    + a
                    + "' cannot have a body"@
            },
            ErrorView::ExtendFinalClass(a) => "Cannot extend final class '"@ + a + "'"@,
            ErrorView::OverrideFinalMethod(a) => {
                "Cannot override final method '"@
                    + a
                    + "'"@
            },
            ErrorView::ConflictingModifiers(a) => {
                "Conflicting modifiers 'abstract' and 'final' on '"@
                    + a
                    + "'"@
            },
            ErrorView::NonContiguousArrayDimensionOmission(a) => {
                "Non-first dimension size omitted in middle position in '"@
                    + a
                    + "'"@
            },
            ErrorView::RequiredParamNotProvided(a) => {
                "Required parameter '"@
                    + a
                    + "' not provided"@
            },
            ErrorView::PositionalArgAfterNamed => {
                "Positional argument after named argument"@
            },
            ErrorView::ParamProvidedTwice(a) => {
                "Parameter '"@
                    + a
                    + "' provided both positionally and by name"@
            },
            ErrorView::DefaultNotConstant(a) => {
                "Default value for parameter '"@
                    + a
                    + "' must be a compile-time constant"@
            },
            ErrorView::RefArgNotVariable(a) => {
                "Argument for 'ref' parameter '"@
                    + a
                    + "' must be a variable"@
            },
            ErrorView::MissingRefKeyword(a) => {
                "Missing 'ref' keyword at call site for parameter '"@
                    + a
                    + "'"@
            },
            ErrorView::OptionalCannotBeRef => {
                "Optional parameters cannot be declared 'ref'"@
            },
        }
    }

    /// What is said of the error.
    pub open spec fn text(self) -> Seq<char> {
        self.code() + " — "@ + self.detail()
    }
}

impl SemaError {
    pub fn code(&self) -> (r: &'static str)
        ensures
            r@ == self@.code(),
    {
        match self {
            SemaError::NotDefinitelyAssigned(_) => "E001",
            SemaError::NullToNonNullable(_) => "E003",
            SemaError::NotAssignable(_, _) => "E004",
            SemaError::AutoWithoutInitializer => "E005",
            SemaError::BadCast(_, _) => "E007",
            SemaError::BadConcatenation(_) => "E008",
            SemaError::BadBinaryOperator(_, _, _) => "E009",
            SemaError::BadUnaryOperator(_, _) => "E009",
            SemaError::DuplicateMethod(_, _) => "E041",
            SemaError::DiamondInterfaceConflict(_, _, _, _) => "E041",
            SemaError::DuplicateClass(_) => "E042",
            SemaError::ThisCallNotFirst => "E045",
            SemaError::DelegationCycle(_) => "E046",
            SemaError::MatchNotExhaustive(_) => "E047",
            SemaError::UnreachableCatch(_, _) => "E048",
            SemaError::UnhandledCheckedException(_) => "E015",
            SemaError::MissingThrowsInOverride(_, _) => "E016",
            SemaError::ExtraThrowsInOverride(_, _) => "E017",
            SemaError::NoMainMethod => "E027",
            SemaError::MultipleMainMethods => "E028",
            SemaError::BadMainSignature => "E029",
            SemaError::StaticContextMisuse(_) => "E040",
            SemaError::DuplicateImportSymbol(_) => "E043",
            SemaError::NonNullableArrayFixedSize(_) => "E031",
            SemaError::MemberNotAccessible(_, _, _) => "E018",
            SemaError::MissingVisibilityModifier(_) => "E019",
            SemaError::PropertyNotInitialized(_, _) => "E002",
            SemaError::ConstMethodPropertyModification(_) => "E010",
            SemaError::ConstMethodNonConstCall(_) => "E011",
            SemaError::MethodMustBeConst(_, _) => "E044",
            SemaError::ConstModification(_) => "E012",
            SemaError::ConstLoopVariableModification(_) => "E039",
            SemaError::TemplateBoundNotSatisfied(_, _, _) => "E037",
            SemaError::TemplateOperatorUnsupported(_, _, _) => "E006",
            SemaError::ReadonlyClassModification(_, _) => "E013",
            SemaError::ReadonlyPropertyModification(_) => "E014",
            SemaError::InstantiateAbstractClass(_) => "E032",
            SemaError::ClassMustBeAbstract(_, _) => "E033",
            SemaError::AbstractMethodHasBody(_) => "E034",
            SemaError::ExtendFinalClass(_) => "E035",
            SemaError::OverrideFinalMethod(_) => "E036",
            SemaError::ConflictingModifiers(_) => "E049",
            SemaError::NonContiguousArrayDimensionOmission(_) => "E038",
            SemaError::RequiredParamNotProvided(_) => "E023",
            SemaError::PositionalArgAfterNamed => "E024",
            SemaError::ParamProvidedTwice(_) => "E025",
            SemaError::DefaultNotConstant(_) => "E026",
            SemaError::RefArgNotVariable(_) => "E020",
            SemaError::MissingRefKeyword(_) => "E021",
            SemaError::OptionalCannotBeRef => "E022",
        }
    }

    fn detail(&self) -> (r: String)
        ensures
            r@ == self@.detail(),
    {
        match self {
            SemaError::NotDefinitelyAssigned(a) => cat3(
                "Variable '",
                a.as_str(),
                "' may not have been initialized",
            ),
            SemaError::NullToNonNullable(a) => cat3(
                "Cannot assign 'null' to type '",
                a.as_str(),
                "' (type does not include null)",
            ),
            SemaError::NotAssignable(a, b) => cat5(
                "Type '",
                a.as_str(),
                "' is not assignable to '",
                b.as_str(),
                "'",
            ),
            SemaError::AutoWithoutInitializer => owned("Cannot use 'auto' without an initializer"),
            SemaError::BadCast(a, b) => cat5(
                "Cannot cast '",
                a.as_str(),
                "' to '",
                b.as_str(),
                "'",
            ),
            SemaError::BadConcatenation(a) => cat3(
                "Cannot concatenate 'string' with type '",
                a.as_str(),
                "' (type does not implement Stringable)",
            ),
            SemaError::BadBinaryOperator(a, b, c) => cat7(
                "Operator '",
                a.as_str(),
                "' is not defined for types '",
                b.as_str(),
                "' and '",
                c.as_str(),
                "'",
            ),
            SemaError::BadUnaryOperator(a, b) => cat5(
                "Operator '",
                a.as_str(),
                "' is not defined for type '",
                b.as_str(),
                "'",
            ),
            SemaError::DuplicateMethod(a, b) => cat5(
                "Duplicate method '",
                a.as_str(),
                "' with identical signature in class '",
                b.as_str(),
                "'",
            ),
            SemaError::DiamondInterfaceConflict(a, b, c, d) => cat3(
                cat7(
                    "Method '",
                    a.as_str(),
                    "' is inherited from both '",
                    b.as_str(),
                    "' and '",
                    c.as_str(),
                    "' with different return types (diamond merge in '",
                ).as_str(),
                d.as_str(),
                "')",
            ),
            SemaError::DuplicateClass(a) => cat3(
                "Duplicate class definition '",
                a.as_str(),
                "'",
            ),
            SemaError::ThisCallNotFirst => owned("'this(...)' delegation call must be the first statement of the constructor"),
            SemaError::DelegationCycle(a) => cat3(
                "Constructor delegation cycle in class '",
                a.as_str(),
                "'",
            ),
            SemaError::MatchNotExhaustive(a) => cat3(
                "Match expression is not exhaustive (missing '",
                a.as_str(),
                "')",
            ),
            SemaError::UnreachableCatch(a, b) => cat5(
                "Unreachable catch clause: '",
                a.as_str(),
                "' is already caught by earlier clause '",
                b.as_str(),
                "'",
            ),
            SemaError::UnhandledCheckedException(a) => cat3(
                "Unhandled checked exception '",
                a.as_str(),
                "' — must be caught or declared in 'throws'",
            ),
            SemaError::MissingThrowsInOverride(a, b) => cat5(
                "Overriding method '",
                a.as_str(),
                "' does not declare exception '",
                b.as_str(),
                "' from parent method",
            ),
            SemaError::ExtraThrowsInOverride(a, b) => cat5(
                "Overriding method '",
                a.as_str(),
                "' declares exception '",
                b.as_str(),
                "' not thrown by parent method",
            ),
            SemaError::NoMainMethod => owned("No 'main' method found"),
            SemaError::MultipleMainMethods => owned("Multiple 'main' methods found"),
            SemaError::BadMainSignature => owned("'main' method has incorrect signature (expected: public static int main(string[]))"),
            SemaError::StaticContextMisuse(a) => cat3(
                "Cannot use '",
                a.as_str(),
                "' in a static context",
            ),
            SemaError::DuplicateImportSymbol(a) => cat3(
                "Import creates duplicate symbol '",
                a.as_str(),
                "'",
            ),
            SemaError::NonNullableArrayFixedSize(a) => cat3(
                "Cannot create array of non-nullable type '",
                a.as_str(),
                "' with fixed size (no default value)",
            ),
            SemaError::MemberNotAccessible(a, b, c) => cat7(
                "Member '",
                a.as_str(),
                "' is not accessible from '",
                b.as_str(),
                "' (visibility: ",
                c.as_str(),
                ")",
            ),
            SemaError::MissingVisibilityModifier(a) => cat3(
                "Missing visibility modifier on member '",
                a.as_str(),
                "'",
            ),
            SemaError::PropertyNotInitialized(a, b) => cat5(
                "Property '",
                a.as_str(),
                "' of non-nullable type '",
                b.as_str(),
                "' is not initialized in constructor",
            ),
            SemaError::ConstMethodPropertyModification(a) => cat3(
                "Cannot modify property '",
                a.as_str(),
                "' in a const method",
            ),
            SemaError::ConstMethodNonConstCall(a) => cat3(
                "Cannot call non-const method '",
                a.as_str(),
                "' in a const method",
            ),
            SemaError::MethodMustBeConst(a, b) => cat5(
                "Method '",
                a.as_str(),
                "' implementing interface '",
                b.as_str(),
                "' must be declared const",
            ),
            SemaError::ConstModification(a) => cat3(
                "Cannot modify const variable '",
                a.as_str(),
                "'",
            ),
            SemaError::ConstLoopVariableModification(a) => cat3(
                "Cannot modify loop variable '",
                a.as_str(),
                "' — implicitly const when iterating over read-only collection",
            ),
            SemaError::TemplateBoundNotSatisfied(a, b, c) => cat7(
                "Type '",
                a.as_str(),
                "' does not satisfy bound '",
                b.as_str(),
                "' (required by template '",
                c.as_str(),
                "')",
            ),
            SemaError::TemplateOperatorUnsupported(a, b, c) => cat7(
                "Type '",
                a.as_str(),
                "' does not support operator '",
                b.as_str(),
                "' (required by template '",
                c.as_str(),
                "')",
            ),
            SemaError::ReadonlyClassModification(a, b) => cat5(
                "Cannot modify property '",
                a.as_str(),
                "' of readonly class '",
                b.as_str(),
                "'",
            ),
            SemaError::ReadonlyPropertyModification(a) => cat3(
                "Cannot modify readonly property '",
                a.as_str(),
                "'",
            ),
            SemaError::InstantiateAbstractClass(a) => cat3(
                "Cannot instantiate abstract class '",
                a.as_str(),
                "'",
            ),
            SemaError::ClassMustBeAbstract(a, b) => cat5(
                "Class '",
                a.as_str(),
                "' must be declared abstract (has unimplemented abstract method '",
                b.as_str(),
                "')",
            ),
            SemaError::AbstractMethodHasBody(a) => cat3(
                "Abstract method '",
                a.as_str(),
                "' cannot have a body",
            ),
            SemaError::ExtendFinalClass(a) => cat3(
                "Cannot extend final class '",
                a.as_str(),
                "'",
            ),
            SemaError::OverrideFinalMethod(a) => cat3(
                "Cannot override final method '",
                a.as_str(),
                "'",
            ),
            SemaError::ConflictingModifiers(a) => cat3(
                "Conflicting modifiers 'abstract' and 'final' on '",
                a.as_str(),
                "'",
            ),
            SemaError::NonContiguousArrayDimensionOmission(a) => cat3(
                "Non-first dimension size omitted in middle position in '",
                a.as_str(),
                "'",
            ),
            SemaError::RequiredParamNotProvided(a) => cat3(
                "Required parameter '",
                a.as_str(),
                "' not provided",
            ),
            SemaError::PositionalArgAfterNamed => owned("Positional argument after named argument"),
            SemaError::ParamProvidedTwice(a) => cat3(
                "Parameter '",
                a.as_str(),
                "' provided both positionally and by name",
            ),
            SemaError::DefaultNotConstant(a) => cat3(
                "Default value for parameter '",
                a.as_str(),
                "' must be a compile-time constant",
            ),
            SemaError::RefArgNotVariable(a) => cat3(
                "Argument for 'ref' parameter '",
                a.as_str(),
                "' must be a variable",
            ),
            SemaError::MissingRefKeyword(a) => cat3(
                "Missing 'ref' keyword at call site for parameter '",
                a.as_str(),
                "'",
            ),
            SemaError::OptionalCannotBeRef => owned("Optional parameters cannot be declared 'ref'"),
        }
    }

    pub fn message(&self) -> (r: String)
        ensures
            r@ == self@.text(),
    {
        cat3(self.code(), " — ", self.detail().as_str())
    }
}

/// An error and where it was found: inside a method at the statement, else at
/// the declaration. An error of the program as a whole has no file.
#[derive(Debug, Clone, PartialEq, Eq)]
pub struct LocatedError {
    pub file: String,
    pub line: u32,
    pub error: SemaError,
}

pub struct LocatedView {
    pub file: Seq<char>,
    pub line: u32,
    pub error: ErrorView,
}

impl View for LocatedError {
    type V = LocatedView;

    open spec fn view(&self) -> LocatedView {
        LocatedView { file: self.file@, line: self.line, error: self.error@ }
    }
}

/// A diagnostic with the place it is about in front of it, if there is one.
pub open spec fn placed(file: Seq<char>, line: u32, text: Seq<char>) -> Seq<char> {
    if file.len() == 0 {
        text
    } else {
        file + ":"@ + decimal_text(line as nat) + ": "@ + text
    }
}

fn place(file: &String, line: u32, text: String) -> (r: String)
    ensures
        r@ == placed(file@, line, text@),
{
    if file.as_str().unicode_len() == 0 {
        text
    } else {
        cat5(file.as_str(), ":", decimal(line as u64).as_str(), ": ", text.as_str())
    }
}

impl LocatedError {
    pub fn code(&self) -> (r: &'static str)
        ensures
            r@ == self@.error.code(),
    {
        self.error.code()
    }

    pub fn message(&self) -> (r: String)
        ensures
            r@ == placed(self@.file, self.line, self@.error.text()),
    {
        place(&self.file, self.line, self.error.message())
    }
}

/// A flaw that does not keep a program from being compiled.
#[derive(Debug, Clone, PartialEq, Eq)]
pub enum SemaWarning {
    NodiscardDiscarded(String),
}

pub enum WarningView {
    NodiscardDiscarded(Seq<char>),
}

impl View for SemaWarning {
    type V = WarningView;

    open spec fn view(&self) -> WarningView {
        match *self {
            SemaWarning::NodiscardDiscarded(name) => WarningView::NodiscardDiscarded(name@),
        }
    }
}

impl WarningView {
    pub open spec fn code(self) -> Seq<char> {
        "W001"@
    }

    pub open spec fn text(self) -> Seq<char> {
        match self {
            WarningView::NodiscardDiscarded(name) =>
                "W001 — Return value of nodiscard method '"@ + name + "' is discarded"@,
        }
    }
}

impl SemaWarning {
    pub fn code(&self) -> (r: &'static str)
        ensures
            r@ == self@.code(),
    {
        "W001"
    }

    pub fn message(&self) -> (r: String)
        ensures
            r@ == self@.text(),
    {
        match self {
            SemaWarning::NodiscardDiscarded(name) => cat3(
                "W001 — Return value of nodiscard method '",
                name.as_str(),
                "' is discarded",
            ),
        }
    }
}

/// A warning and the statement it is about.
#[derive(Debug, Clone, PartialEq, Eq)]
pub struct LocatedWarning {
    pub file: String,
    pub line: u32,
    pub warning: SemaWarning,
}

pub struct LocatedWarningView {
    pub file: Seq<char>,
    pub line: u32,
    pub warning: WarningView,
}

impl View for LocatedWarning {
    type V = LocatedWarningView;

    open spec fn view(&self) -> LocatedWarningView {
        LocatedWarningView { file: self.file@, line: self.line, warning: self.warning@ }
    }
}

impl LocatedWarning {
    pub fn code(&self) -> (r: &'static str)
        ensures
            r@ == self@.warning.code(),
    {
        self.warning.code()
    }

    pub fn message(&self) -> (r: String)
        ensures
            r@ == placed(self@.file, self.line, self@.warning.text()),
    {
        place(&self.file, self.line, self.warning.message())
    }
}

/// The outcome of a check.
pub type Checked = Result<(), ErrorView>;

pub open spec fn checked_as(r: Result<(), SemaError>, want: Checked) -> bool {
    match r {
        Ok(_) => want == Checked::Ok(()),
        Err(e) => want == Checked::Err(e@),
    }
}

} // verus!
