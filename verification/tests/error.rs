use agc::ai::openai::{ApiErrorInfo, bearer_header, chat_result, check_api_key};
use agc::config::AiConfig;
use agc::error::AgcError;

#[test]
fn error_messages_carry_their_prefix() {
    assert_eq!(AgcError::Git("x".into()).message(), "Git 操作失败: x");
    assert_eq!(AgcError::Api("x".into()).message(), "API 错误: x");
    assert_eq!(AgcError::Config("x".into()).message(), "配置错误: x");
    assert_eq!(AgcError::Parse("x".into()).message(), "解析失败: x");
    assert_eq!(AgcError::UserCancel.message(), "用户取消");
    assert_eq!(AgcError::Other("plain".into()).message(), "plain");
}

#[test]
fn openai_answer_reading() {
    assert_eq!(chat_result(Some("  {\"a\":1}\n".into()), None).unwrap(), "{\"a\":1}");
    let err = chat_result(
        None,
        Some(ApiErrorInfo { message: "bad key".into(), error_type: "auth".into() }),
    )
    .err()
    .unwrap();
    assert_eq!(err.message(), "API 返回错误: bad key (auth)");
    assert_eq!(chat_result(None, None).err().unwrap().message(), "API 返回空结果（无错误信息）");
}

#[test]
fn openai_factory_needs_a_key() {
    let mut cfg = AiConfig { provider: "openai".into(), api_key: None, model: "m".into(), base_url: "u".into() };
    assert!(check_api_key(&cfg).is_err());
    cfg.api_key = Some(String::new());
    assert_eq!(
        check_api_key(&cfg).err().unwrap().message(),
        "openai provider 缺少 api_key，请在配置文件或 MESSAGE_API_KEY 环境变量中设置"
    );
    cfg.api_key = Some("k".into());
    assert!(check_api_key(&cfg).is_ok());
    assert_eq!(bearer_header("k"), "Bearer k");
}
