//! The library's error type.
use vstd::prelude::*;

verus! {

/// What can go wrong in the commit workflow.
#[derive(Debug)]
pub enum AgcError {
    Git(String),
    Api(String),
    Config(String),
    Parse(String),
    UserCancel,
    /// A failure described by its message alone.
    Other(String),
}

impl AgcError {
    /// The user-facing text of the error.
    pub open spec fn text(&self) -> Seq<char> {
        match self {
            AgcError::Git(m) => "Git 操作失败: "@ + m@,
            AgcError::Api(m) => "API 错误: "@ + m@,
            AgcError::Config(m) => "配置错误: "@ + m@,
            AgcError::Parse(m) => "解析失败: "@ + m@,
            AgcError::UserCancel => "用户取消"@,
            AgcError::Other(m) => m@,
        }
    }

    /// The user-facing text of the error (what `Display` prints).
    pub fn message(&self) -> (r: String)
        ensures
            r@ == self.text(),
    {
        match self {
            AgcError::Git(m) => {
                let mut r = String::from_str("Git 操作失败: ");
                r.append(m.as_str());
                r
            },
            AgcError::Api(m) => {
                let mut r = String::from_str("API 错误: ");
                r.append(m.as_str());
                r
            },
            AgcError::Config(m) => {
                let mut r = String::from_str("配置错误: ");
                r.append(m.as_str());
                r
            },
            AgcError::Parse(m) => {
                let mut r = String::from_str("解析失败: ");
                r.append(m.as_str());
                r
            },
            AgcError::UserCancel => String::from_str("用户取消"),
            AgcError::Other(m) => m.clone(),
        }
    }

    /// An equal copy of the error.
    pub fn duplicate(&self) -> (r: AgcError)
        ensures
            r == *self,
    {
        match self {
            AgcError::Git(m) => AgcError::Git(m.clone()),
            AgcError::Api(m) => AgcError::Api(m.clone()),
            AgcError::Config(m) => AgcError::Config(m.clone()),
            AgcError::Parse(m) => AgcError::Parse(m.clone()),
            AgcError::UserCancel => AgcError::UserCancel,
            AgcError::Other(m) => AgcError::Other(m.clone()),
        }
    }
}

} // verus!
