use llm_pipe::config::OpenAIConfig;

#[test]
fn test_config() {
    assert_eq!(
        OpenAIConfig::default(),
        OpenAIConfig {
            model: String::from("gpt-4o"),
            endpoint: String::from("https://api.openai.com/v1"),
            api_key: String::new(),
        }
        .clone()
    );
}

#[test]
fn new_config_is_the_default() {
    let config = OpenAIConfig::new();
    assert_eq!(config.model, "gpt-4o");
    assert_eq!(config.endpoint, "https://api.openai.com/v1");
    assert_eq!(config.api_key, "");
    assert_eq!(config, OpenAIConfig::default());
}
