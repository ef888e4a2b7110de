//! The types of `glsl`'s syntax tree that the writer's wrappers hand over, declared to Verus as
//! opaque values.

use vstd::prelude::*;

use glsl::syntax::LayoutQualifierSpec as GlslLayoutQualifierSpec;
use glsl::syntax::InterpolationQualifier as GlslInterpolationQualifier;
use glsl::syntax::PrecisionQualifier as GlslPrecisionQualifier;
use glsl::syntax::StorageQualifier as GlslStorageQualifier;
use glsl::syntax::Expr as GlslExpr;
use glsl::syntax::ArraySpecifier as GlslArraySpecifier;
use glsl::syntax::TypeQualifierSpec as GlslTypeQualifierSpec;
use glsl::syntax::TypeQualifier as GlslTypeQualifier;
use glsl::syntax::TypeSpecifierNonArray as GlslTypeSpecifierNonArray;
use glsl::syntax::TypeSpecifier as GlslTypeSpecifier;
use glsl::syntax::StructSpecifier as GlslStructSpecifier;
use glsl::syntax::StructFieldSpecifier as GlslStructFieldSpecifier;
use glsl::syntax::FullySpecifiedType as GlslFullySpecifiedType;
use glsl::syntax::FunctionParameterDeclaration as GlslFunctionParameterDeclaration;

verus! {

#[verifier::external_type_specification]
#[verifier::external_body]
pub struct ExGlslExpr(GlslExpr);

#[verifier::external_type_specification]
#[verifier::external_body]
pub struct ExGlslArraySpecifier(GlslArraySpecifier);

#[verifier::external_type_specification]
#[verifier::external_body]
pub struct ExGlslTypeQualifierSpec(GlslTypeQualifierSpec);

#[verifier::external_type_specification]
#[verifier::external_body]
pub struct ExGlslTypeQualifier(GlslTypeQualifier);

#[verifier::external_type_specification]
#[verifier::external_body]
pub struct ExGlslTypeSpecifierNonArray(GlslTypeSpecifierNonArray);

#[verifier::external_type_specification]
#[verifier::external_body]
pub struct ExGlslTypeSpecifier(GlslTypeSpecifier);

#[verifier::external_type_specification]
#[verifier::external_body]
pub struct ExGlslStructSpecifier(GlslStructSpecifier);

#[verifier::external_type_specification]
#[verifier::external_body]
pub struct ExGlslStructFieldSpecifier(GlslStructFieldSpecifier);

#[verifier::external_type_specification]
#[verifier::external_body]
pub struct ExGlslFullySpecifiedType(GlslFullySpecifiedType);

#[verifier::external_type_specification]
#[verifier::external_body]
pub struct ExGlslFunctionParameterDeclaration(GlslFunctionParameterDeclaration);

#[verifier::external_type_specification]
#[verifier::external_body]
pub struct ExGlslStorageQualifier(GlslStorageQualifier);

#[verifier::external_type_specification]
#[verifier::external_body]
pub struct ExGlslPrecisionQualifier(GlslPrecisionQualifier);

#[verifier::external_type_specification]
#[verifier::external_body]
pub struct ExGlslInterpolationQualifier(GlslInterpolationQualifier);

#[verifier::external_type_specification]
#[verifier::external_body]
pub struct ExGlslLayoutQualifierSpec(GlslLayoutQualifierSpec);

} // verus!
