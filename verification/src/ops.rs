use vstd::prelude::*;

use crate::ir::DiffOp;

verus! {

/// The name of a change's kind.
pub open spec fn diff_op_tag(op: DiffOp) -> Seq<char> {
    match op {
        DiffOp::CreateTable(_) => "CreateTable"@,
        DiffOp::DropTable(_) => "DropTable"@,
        DiffOp::RenameTable { .. } => "RenameTable"@,
        DiffOp::AddColumn { .. } => "AddColumn"@,
        DiffOp::DropColumn { .. } => "DropColumn"@,
        DiffOp::AlterColumn { .. } => "AlterColumn"@,
        DiffOp::RenameColumn { .. } => "RenameColumn"@,
        DiffOp::AddIndex(_) => "AddIndex"@,
        DiffOp::DropIndex { .. } => "DropIndex"@,
        DiffOp::RenameIndex { .. } => "RenameIndex"@,
        DiffOp::AddForeignKey { .. } => "AddForeignKey"@,
        DiffOp::DropForeignKey { .. } => "DropForeignKey"@,
        DiffOp::AddCheck { .. } => "AddCheck"@,
        DiffOp::DropCheck { .. } => "DropCheck"@,
        DiffOp::AddExclusion { .. } => "AddExclusion"@,
        DiffOp::DropExclusion { .. } => "DropExclusion"@,
        DiffOp::SetPrimaryKey { .. } => "SetPrimaryKey"@,
        DiffOp::DropPrimaryKey { .. } => "DropPrimaryKey"@,
        DiffOp::AddPartition { .. } => "AddPartition"@,
        DiffOp::DropPartition { .. } => "DropPartition"@,
        DiffOp::CreateView(_) => "CreateView"@,
        DiffOp::DropView(_) => "DropView"@,
        DiffOp::CreateMaterializedView(_) => "CreateMaterializedView"@,
        DiffOp::DropMaterializedView(_) => "DropMaterializedView"@,
        DiffOp::CreateSequence(_) => "CreateSequence"@,
        DiffOp::DropSequence(_) => "DropSequence"@,
        DiffOp::AlterSequence { .. } => "AlterSequence"@,
        DiffOp::CreateTrigger(_) => "CreateTrigger"@,
        DiffOp::DropTrigger { .. } => "DropTrigger"@,
        DiffOp::CreateFunction(_) => "CreateFunction"@,
        DiffOp::DropFunction(_) => "DropFunction"@,
        DiffOp::CreateType(_) => "CreateType"@,
        DiffOp::DropType(_) => "DropType"@,
        DiffOp::AlterType { .. } => "AlterType"@,
        DiffOp::CreateDomain(_) => "CreateDomain"@,
        DiffOp::DropDomain(_) => "DropDomain"@,
        DiffOp::AlterDomain { .. } => "AlterDomain"@,
        DiffOp::CreateExtension(_) => "CreateExtension"@,
        DiffOp::DropExtension(_) => "DropExtension"@,
        DiffOp::CreateSchema(_) => "CreateSchema"@,
        DiffOp::DropSchema(_) => "DropSchema"@,
        DiffOp::SetComment(_) => "SetComment"@,
        DiffOp::DropComment { .. } => "DropComment"@,
        DiffOp::Grant(_) => "Grant"@,
        DiffOp::Revoke(_) => "Revoke"@,
        DiffOp::CreatePolicy(_) => "CreatePolicy"@,
        DiffOp::DropPolicy { .. } => "DropPolicy"@,
        DiffOp::AlterTableOptions { .. } => "AlterTableOptions"@,
    }
}

/// The name of a change's kind.
pub fn diff_op_name(op: &DiffOp) -> (r: &'static str)
    ensures
        r@ == diff_op_tag(*op),
{
    match op {
        DiffOp::CreateTable(_) => "CreateTable",
        DiffOp::DropTable(_) => "DropTable",
        DiffOp::RenameTable { .. } => "RenameTable",
        DiffOp::AddColumn { .. } => "AddColumn",
        DiffOp::DropColumn { .. } => "DropColumn",
        DiffOp::AlterColumn { .. } => "AlterColumn",
        DiffOp::RenameColumn { .. } => "RenameColumn",
        DiffOp::AddIndex(_) => "AddIndex",
        DiffOp::DropIndex { .. } => "DropIndex",
        DiffOp::RenameIndex { .. } => "RenameIndex",
        DiffOp::AddForeignKey { .. } => "AddForeignKey",
        DiffOp::DropForeignKey { .. } => "DropForeignKey",
        DiffOp::AddCheck { .. } => "AddCheck",
        DiffOp::DropCheck { .. } => "DropCheck",
        DiffOp::AddExclusion { .. } => "AddExclusion",
        DiffOp::DropExclusion { .. } => "DropExclusion",
        DiffOp::SetPrimaryKey { .. } => "SetPrimaryKey",
        DiffOp::DropPrimaryKey { .. } => "DropPrimaryKey",
        DiffOp::AddPartition { .. } => "AddPartition",
        DiffOp::DropPartition { .. } => "DropPartition",
        DiffOp::CreateView(_) => "CreateView",
        DiffOp::DropView(_) => "DropView",
        DiffOp::CreateMaterializedView(_) => "CreateMaterializedView",
        DiffOp::DropMaterializedView(_) => "DropMaterializedView",
        DiffOp::CreateSequence(_) => "CreateSequence",
        DiffOp::DropSequence(_) => "DropSequence",
        DiffOp::AlterSequence { .. } => "AlterSequence",
        DiffOp::CreateTrigger(_) => "CreateTrigger",
        DiffOp::DropTrigger { .. } => "DropTrigger",
        DiffOp::CreateFunction(_) => "CreateFunction",
        DiffOp::DropFunction(_) => "DropFunction",
        DiffOp::CreateType(_) => "CreateType",
        DiffOp::DropType(_) => "DropType",
        DiffOp::AlterType { .. } => "AlterType",
        DiffOp::CreateDomain(_) => "CreateDomain",
        DiffOp::DropDomain(_) => "DropDomain",
        DiffOp::AlterDomain { .. } => "AlterDomain",
        DiffOp::CreateExtension(_) => "CreateExtension",
        DiffOp::DropExtension(_) => "DropExtension",
        DiffOp::CreateSchema(_) => "CreateSchema",
        DiffOp::DropSchema(_) => "DropSchema",
        DiffOp::SetComment(_) => "SetComment",
        DiffOp::DropComment { .. } => "DropComment",
        DiffOp::Grant(_) => "Grant",
        DiffOp::Revoke(_) => "Revoke",
        DiffOp::CreatePolicy(_) => "CreatePolicy",
        DiffOp::DropPolicy { .. } => "DropPolicy",
        DiffOp::AlterTableOptions { .. } => "AlterTableOptions",
    }
}

} // verus!
