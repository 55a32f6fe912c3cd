use ats_bot::command::{command_in_message, AtsBotCommand, CommandAction};

#[test]
fn from_str_accepts_known_words_after_slashes() {
    assert_eq!(AtsBotCommand::from_str("start"), Some(AtsBotCommand::Start));
    assert_eq!(AtsBotCommand::from_str("/start"), Some(AtsBotCommand::Start));
    assert_eq!(AtsBotCommand::from_str("///stop"), Some(AtsBotCommand::Stop));
    assert_eq!(AtsBotCommand::from_str("/status"), Some(AtsBotCommand::Status));
    assert_eq!(AtsBotCommand::from_str("/Start"), None);
    assert_eq!(AtsBotCommand::from_str("/start@bot"), None);
    assert_eq!(AtsBotCommand::from_str("/"), None);
    assert_eq!(AtsBotCommand::from_str(""), None);
    assert_eq!(AtsBotCommand::from_str("/st/art"), None);
}

#[test]
fn message_command_is_the_first_word() {
    assert_eq!(command_in_message(Some("/start")), Some(AtsBotCommand::Start));
    assert_eq!(command_in_message(Some("  /stop please")), Some(AtsBotCommand::Stop));
    assert_eq!(command_in_message(Some("\u{3000}/status\tnow")), Some(AtsBotCommand::Status));
    assert_eq!(command_in_message(Some("hello /start")), None);
    assert_eq!(command_in_message(Some("   ")), None);
    assert_eq!(command_in_message(Some("")), None);
    assert_eq!(command_in_message(None), None);
}

#[test]
fn actions_and_replies() {
    assert_eq!(AtsBotCommand::Start.action(), CommandAction::RegisterUser);
    assert_eq!(AtsBotCommand::Stop.action(), CommandAction::DeactivateUser);
    assert_eq!(AtsBotCommand::Status.action(), CommandAction::QueryStatus);
    assert_eq!(
        AtsBotCommand::Start.reply(false),
        "✅ Вы успешно зарегистрированы для получения данных!"
    );
    assert_eq!(AtsBotCommand::Stop.reply(true), "❌ Вы отписаны от получения данных.");
    assert_eq!(AtsBotCommand::Status.reply(true), "📊 Ваш статус: активен");
    assert_eq!(AtsBotCommand::Status.reply(false), "📊 Ваш статус: не активен");
}
