//! The rules of the rule and skill endpoints.
//!
//! Prompt rules only sway the model; policies are enforced at the tool
//! boundary. The two share an endpoint but never change into each other.

use vstd::prelude::*;

use crate::error::{invalid, not_found, AppError};
use crate::text::{chars_of, is_blank, is_blank_str, join, str_eq};

verus! {

/// The id of a created rule or skill.
pub struct RuleCreated {
    pub id: String,
}

/// The body of `PUT /api/v1/rules/{id}/enabled`.
pub struct SetEnabled {
    pub enabled: bool,
}

/// The body of `POST /api/v1/skills`.
pub struct CreateSkill {
    pub name: String,
    pub version: String,
    /// The one line that enters the context under progressive disclosure:
    /// it must say when to use the skill.
    pub description: String,
    pub body: String,
    /// Extra files by relative path.
    pub files: Vec<(String, String)>,
}

/// A skill as listed.
pub struct SkillSummary {
    pub name: String,
    pub version: String,
    pub description: String,
    pub content_hash: String,
}

/// The version of a skill that names none.
pub fn default_version() -> (s: String)
    ensures
        s@ == "1"@,
{
    String::from_str("1")
}

pub open spec fn kind_label_spec(kind: Seq<char>) -> Seq<char> {
    if kind == "policy"@ {
        "硬策略"@
    } else {
        "软规则"@
    }
}

/// How a rule kind is named to people.
pub fn kind_label(kind: &str) -> (s: &'static str)
    ensures
        s@ == kind_label_spec(kind@),
{
    if str_eq(kind, "policy") {
        "硬策略"
    } else {
        "软规则"
    }
}

/// A prompt rule needs text.
pub fn prompt_text_check(text: &str) -> (r: Result<(), AppError>)
    ensures
        is_blank(text@) ==> (r matches Err(AppError::Validation(v)) && v@.len() == 1 && v@[0].field@
            == "text"@ && v@[0].message@ == "软规则的文本不能为空"@),
        !is_blank(text@) ==> r is Ok,
{
    if is_blank_str(text) {
        Err(invalid("text", "软规则的文本不能为空"))
    } else {
        Ok(())
    }
}

/// An update keeps the rule's kind: the two kinds store different specs,
/// so changing kind is a delete and a new rule.
pub fn kind_change_check(existing: &str, requested: &str) -> (r: Result<(), AppError>)
    ensures
        existing@ == requested@ ==> r is Ok,
        existing@ != requested@ ==> (r matches Err(AppError::Validation(v)) && v@.len() == 1
            && v@[0].field@ == "kind"@ && v@[0].message@ == "这是一条"@ + kind_label_spec(existing@)
            + "，不能改成"@ + kind_label_spec(requested@) + "。要换种类就删了重建"@),
{
    if str_eq(existing, requested) {
        Ok(())
    } else {
        let mut m = String::from_str("这是一条");
        m.append(kind_label(existing));
        m.append("，不能改成");
        m.append(kind_label(requested));
        m.append("。要换种类就删了重建");
        Err(invalid("kind", m.as_str()))
    }
}

/// The checks of a rule update, in order: the rule must exist, the new
/// body must be valid (`body` is that judgement: the prompt text, or the
/// trial compile of a policy), and the kind must stay the same.
pub fn update_rule_check(existing_kind: Option<&str>, id_text: &str, requested_kind: &str, body: Result<(), AppError>) -> (r:
    Result<(), AppError>)
    ensures
        existing_kind is None ==> (r matches Err(AppError::NotFound(m)) && m@ == "规则"@ + " "@ + id_text@ + " 不存在"@),
        existing_kind is Some && body is Err ==> r == body,
        existing_kind matches Some(k) ==> (body is Ok && k@ == requested_kind@ ==> r is Ok),
        existing_kind matches Some(k) ==> (body is Ok && k@ != requested_kind@ ==> (r matches Err(
            AppError::Validation(v)) && v@.len() == 1 && v@[0].field@ == "kind"@ && v@[0].message@ == "这是一条"@
            + kind_label_spec(k@) + "，不能改成"@ + kind_label_spec(requested_kind@) + "。要换种类就删了重建"@)),
{
    match existing_kind {
        None => Err(not_found("规则", id_text)),
        Some(k) => match body {
            Err(e) => Err(e),
            Ok(()) => kind_change_check(k, requested_kind),
        },
    }
}

pub open spec fn skill_char(c: char) -> bool {
    ('a' <= c && c <= 'z') || ('A' <= c && c <= 'Z') || ('0' <= c && c <= '9') || c == '-' || c
        == '_'
}

/// A skill name becomes a directory under the CLI's skills directory: ASCII
/// letters, digits, `-` and `_` only, and not empty.
pub fn skill_name_check(name: &str) -> (r: Result<(), AppError>)
    ensures
        (name@.len() > 0 && forall|i: int| 0 <= i < name@.len() ==> skill_char(#[trigger] name@[i]))
            ==> r is Ok,
        !(name@.len() > 0 && forall|i: int| 0 <= i < name@.len() ==> skill_char(#[trigger] name@[i]))
            ==> (r matches Err(AppError::Validation(v)) && v@.len() == 1 && v@[0].field@ == "name"@
            && v@[0].message@ == "技能名只能包含 A-Z a-z 0-9 - _：它会成为工作目录下的一级目录名"@),
{
    let chars = chars_of(name);
    let n = chars.len();
    let mut ok = n > 0;
    let mut i: usize = 0;
    while i < n
        invariant
            n == chars@.len(),
            chars@ == name@,
            i <= n,
            ok == (n > 0 && forall|k: int| 0 <= k < i ==> skill_char(#[trigger] chars@[k])),
        decreases n - i,
    {
        let c = chars[i];
        let good = ('a' <= c && c <= 'z') || ('A' <= c && c <= 'Z') || ('0' <= c && c <= '9') || c
            == '-' || c == '_';
        if !good {
            ok = false;
        }
        i += 1;
    }
    if ok {
        Ok(())
    } else {
        Err(invalid("name", "技能名只能包含 A-Z a-z 0-9 - _：它会成为工作目录下的一级目录名"))
    }
}

/// A skill without a description would never be picked.
pub fn skill_description_check(description: &str) -> (r: Result<(), AppError>)
    ensures
        is_blank(description@) ==> (r matches Err(AppError::Validation(v)) && v@.len() == 1
            && v@[0].field@ == "description"@ && v@[0].message@
            == "描述不能为空：渐进式披露时模型只看得到它，没有描述就等于这个技能不会被用上"@),
        !is_blank(description@) ==> r is Ok,
{
    if is_blank_str(description) {
        Err(invalid("description", "描述不能为空：渐进式披露时模型只看得到它，没有描述就等于这个技能不会被用上"))
    } else {
        Ok(())
    }
}

/// A rule still mounted on tasks cannot be deleted; the refusal names
/// them.
pub fn rule_in_use(mounted: &Vec<String>) -> (r: Option<AppError>)
    ensures
        mounted@.len() == 0 ==> r is None,
        mounted@.len() > 0 ==> (r matches Some(AppError::Conflict(m)) && m@ == "还有任务挂着这条规则："@ + join(
            mounted@.map_values(|s: String| s@),
            "、"@,
        ) + "。先在任务里取消挂载再删"@),
{
    if mounted.len() == 0 {
        return None;
    }
    let names = crate::dag::join_strings(mounted, "、");
    let mut m = String::from_str("还有任务挂着这条规则：");
    m.append(names.as_str());
    m.append("。先在任务里取消挂载再删");
    Some(AppError::Conflict(m))
}

/// The scope name of a rule.
pub fn scope_name(global: bool) -> (s: &'static str)
    ensures
        s@ == (if global {
            "global"@
        } else {
            "task"@
        }),
{
    if global {
        "global"
    } else {
        "task"
    }
}

} // verus!
