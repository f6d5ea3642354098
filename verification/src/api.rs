//! How a request is refused: the status and the text of each refusal.

use vstd::prelude::*;

verus! {

/// Why a request is refused.
#[derive(Clone, Copy, PartialEq, Eq, Structural, Debug)]
pub enum ApiError {
    /// The database failed.
    Database,
    /// The server failed.
    Internal,
    /// No session stands behind the request.
    NotLoggedIn,
    /// The request comes from elsewhere.
    WrongOrigin,
    /// The source has registered too often.
    RegistrationsTooFrequent,
    /// The user name cannot be taken.
    BadUsername,
    /// The user name is the server's own.
    UsernameUnavailable,
    /// The password is too short or too long.
    BadPassword,
    /// The password was not repeated.
    PasswordsDiffer,
    /// The invite code is not the one that is asked for.
    BadInvite,
    /// Too many passwords are being worked on.
    Busy,
    /// The user name belongs to someone.
    UsernameTaken,
    /// The user name or the source has logged in too often.
    LoginsTooFrequent,
    /// The user name or the password is wrong.
    WrongCredentials,
    /// The user is no administrator.
    NotAdmin,
    /// There is no such way of registering.
    BadRegistrationMode,
    /// Invitations need a code.
    InviteMissing,
    /// The backup is no database file.
    NotADatabase,
    /// The backup is damaged, or the server could not run on it.
    UnusableBackup,
    /// The room's name is too long.
    RoomNameTooLong,
    /// The user owns too many rooms.
    TooManyRooms,
    /// A room's code does not look so.
    BadRoomCode,
    /// There is no such room.
    NoSuchRoom,
    /// The lobby stays.
    SystemRoom,
    /// The room belongs to someone else.
    NotOwner,
    /// The new password is too short or too long.
    BadNewPassword,
    /// The new password was not repeated.
    NewPasswordsDiffer,
    /// The current password is wrong.
    WrongPassword,
    /// The text that is searched for is too long.
    SearchTooLong,
    /// The user is not in the room.
    NotMember,
    /// The message is too long.
    MessageTooLong,
    /// The message is empty.
    MessageEmpty,
    /// The room holds as many messages as it may.
    RoomFull,
}

/// How the database fails.
#[derive(Clone, Copy, PartialEq, Eq, Structural, Debug)]
pub enum StorageError {
    /// What was to be stored breaks a constraint.
    Constraint,
    /// In any other way.
    Other,
}

/// What a function gives back, with a value by its view.
pub open spec fn viewed<T: View>(r: Result<T, ApiError>) -> Result<T::V, ApiError> {
    match r {
        Ok(value) => Ok(value@),
        Err(error) => Err(error),
    }
}

/// The HTTP status of a refusal.
pub open spec fn status_of(error: ApiError) -> u16 {
    match error {
        ApiError::BadUsername
        | ApiError::BadPassword
        | ApiError::PasswordsDiffer
        | ApiError::BadRegistrationMode
        | ApiError::InviteMissing
        | ApiError::NotADatabase
        | ApiError::UnusableBackup
        | ApiError::RoomNameTooLong
        | ApiError::BadRoomCode
        | ApiError::BadNewPassword
        | ApiError::NewPasswordsDiffer
        | ApiError::SearchTooLong
        | ApiError::MessageTooLong
        | ApiError::MessageEmpty => 400,
        ApiError::NotLoggedIn
        | ApiError::WrongCredentials
        | ApiError::WrongPassword => 401,
        ApiError::WrongOrigin
        | ApiError::BadInvite
        | ApiError::NotAdmin
        | ApiError::SystemRoom
        | ApiError::NotOwner
        | ApiError::NotMember => 403,
        ApiError::NoSuchRoom => 404,
        ApiError::UsernameUnavailable
        | ApiError::UsernameTaken
        | ApiError::TooManyRooms
        | ApiError::RoomFull => 409,
        ApiError::RegistrationsTooFrequent
        | ApiError::LoginsTooFrequent => 429,
        ApiError::Database
        | ApiError::Internal => 500,
        ApiError::Busy => 503,
    }
}

/// The text of a refusal.
pub open spec fn message_of(error: ApiError) -> Seq<char> {
    match error {
        ApiError::Database => "数据库错误"@,
        ApiError::Internal => "服务器内部错误"@,
        ApiError::NotLoggedIn => "请先登录"@,
        ApiError::WrongOrigin => "无效的请求来源"@,
        ApiError::RegistrationsTooFrequent => "注册尝试过于频繁，请稍后重试"@,
        ApiError::BadUsername => "用户名长度必须为 2-24 个字符"@,
        ApiError::UsernameUnavailable => "该用户名不可用"@,
        ApiError::BadPassword => "密码长度必须为 6-128 个字符"@,
        ApiError::PasswordsDiffer => "两次输入的密码不一致"@,
        ApiError::BadInvite => "请输入有效的邀请码"@,
        ApiError::Busy => "服务器繁忙，请稍后重试"@,
        ApiError::UsernameTaken => "用户名已存在"@,
        ApiError::LoginsTooFrequent => "登录尝试过于频繁，请稍后重试"@,
        ApiError::WrongCredentials => "用户名或密码错误"@,
        ApiError::NotAdmin => "需要管理员权限"@,
        ApiError::BadRegistrationMode => "注册模式无效"@,
        ApiError::InviteMissing => "邀请码模式必须设置邀请码"@,
        ApiError::NotADatabase => "无效的 SQLite 备份文件"@,
        ApiError::UnusableBackup => "备份文件无效或结构不兼容"@,
        ApiError::RoomNameTooLong => "聊天室名称最多 40 个字符"@,
        ApiError::TooManyRooms => "创建的聊天室数量已达上限"@,
        ApiError::BadRoomCode => "房间码必须为 6 个字符"@,
        ApiError::NoSuchRoom => "聊天室不存在"@,
        ApiError::SystemRoom => "公共大厅不可删除"@,
        ApiError::NotOwner => "只有房主可以删除聊天室"@,
        ApiError::BadNewPassword => "新密码长度必须为 6-128 个字符"@,
        ApiError::NewPasswordsDiffer => "两次输入的新密码不一致"@,
        ApiError::WrongPassword => "当前密码错误"@,
        ApiError::SearchTooLong => "搜索关键词最多 128 个字符"@,
        ApiError::NotMember => "你不是该聊天室成员"@,
        ApiError::MessageTooLong => "消息最多 2000 个字符"@,
        ApiError::MessageEmpty => "消息不能为空"@,
        ApiError::RoomFull => "该聊天室消息数量已达上限"@,
    }
}

impl ApiError {
    /// The HTTP status.
    pub fn status(&self) -> (r: u16)
        ensures
            r == status_of(*self),
    {
        match self {
            ApiError::BadUsername
            | ApiError::BadPassword
            | ApiError::PasswordsDiffer
            | ApiError::BadRegistrationMode
            | ApiError::InviteMissing
            | ApiError::NotADatabase
            | ApiError::UnusableBackup
            | ApiError::RoomNameTooLong
            | ApiError::BadRoomCode
            | ApiError::BadNewPassword
            | ApiError::NewPasswordsDiffer
            | ApiError::SearchTooLong
            | ApiError::MessageTooLong
            | ApiError::MessageEmpty => 400,
            ApiError::NotLoggedIn
            | ApiError::WrongCredentials
            | ApiError::WrongPassword => 401,
            ApiError::WrongOrigin
            | ApiError::BadInvite
            | ApiError::NotAdmin
            | ApiError::SystemRoom
            | ApiError::NotOwner
            | ApiError::NotMember => 403,
            ApiError::NoSuchRoom => 404,
            ApiError::UsernameUnavailable
            | ApiError::UsernameTaken
            | ApiError::TooManyRooms
            | ApiError::RoomFull => 409,
            ApiError::RegistrationsTooFrequent
            | ApiError::LoginsTooFrequent => 429,
            ApiError::Database
            | ApiError::Internal => 500,
            ApiError::Busy => 503,
        }
    }

    /// The text that the client reads.
    pub fn message(&self) -> (r: &'static str)
        ensures
            r@ == message_of(*self),
    {
        match self {
            ApiError::Database => "数据库错误",
            ApiError::Internal => "服务器内部错误",
            ApiError::NotLoggedIn => "请先登录",
            ApiError::WrongOrigin => "无效的请求来源",
            ApiError::RegistrationsTooFrequent => "注册尝试过于频繁，请稍后重试",
            ApiError::BadUsername => "用户名长度必须为 2-24 个字符",
            ApiError::UsernameUnavailable => "该用户名不可用",
            ApiError::BadPassword => "密码长度必须为 6-128 个字符",
            ApiError::PasswordsDiffer => "两次输入的密码不一致",
            ApiError::BadInvite => "请输入有效的邀请码",
            ApiError::Busy => "服务器繁忙，请稍后重试",
            ApiError::UsernameTaken => "用户名已存在",
            ApiError::LoginsTooFrequent => "登录尝试过于频繁，请稍后重试",
            ApiError::WrongCredentials => "用户名或密码错误",
            ApiError::NotAdmin => "需要管理员权限",
            ApiError::BadRegistrationMode => "注册模式无效",
            ApiError::InviteMissing => "邀请码模式必须设置邀请码",
            ApiError::NotADatabase => "无效的 SQLite 备份文件",
            ApiError::UnusableBackup => "备份文件无效或结构不兼容",
            ApiError::RoomNameTooLong => "聊天室名称最多 40 个字符",
            ApiError::TooManyRooms => "创建的聊天室数量已达上限",
            ApiError::BadRoomCode => "房间码必须为 6 个字符",
            ApiError::NoSuchRoom => "聊天室不存在",
            ApiError::SystemRoom => "公共大厅不可删除",
            ApiError::NotOwner => "只有房主可以删除聊天室",
            ApiError::BadNewPassword => "新密码长度必须为 6-128 个字符",
            ApiError::NewPasswordsDiffer => "两次输入的新密码不一致",
            ApiError::WrongPassword => "当前密码错误",
            ApiError::SearchTooLong => "搜索关键词最多 128 个字符",
            ApiError::NotMember => "你不是该聊天室成员",
            ApiError::MessageTooLong => "消息最多 2000 个字符",
            ApiError::MessageEmpty => "消息不能为空",
            ApiError::RoomFull => "该聊天室消息数量已达上限",
        }
    }
}

/// What was asked for, or the refusal where the database failed.
pub fn from_storage<T>(result: Result<T, StorageError>) -> (r: Result<T, ApiError>)
    ensures
        r == match result {
            Ok(value) => Ok::<T, ApiError>(value),
            Err(_) => Err(ApiError::Database),
        },
{
    match result {
        Ok(value) => Ok(value),
        Err(_) => Err(ApiError::Database),
    }
}

/// Every refusal is told apart from an answer by its status, and where the
/// server itself failed the client reads nothing of what went wrong.
pub proof fn law_refusals(error: ApiError)
    ensures
        400 <= status_of(error) < 600,
        status_of(error) == 500 ==> message_of(error) == "数据库错误"@ || message_of(error)
            == "服务器内部错误"@,
{
}

/// What each status is for: 401 for who has to log in, 403 for who may not, 404 for
/// what is not there, 409 for what does not fit what is, 429 for what comes too often,
/// 500 and 503 for the server's own failures, and 400 for everything else.
pub proof fn law_statuses(error: ApiError)
    ensures
        status_of(error) == 401 <==> error is NotLoggedIn || error is WrongCredentials || error is WrongPassword,
        status_of(error) == 403 <==> error is WrongOrigin || error is BadInvite || error is NotAdmin || error is SystemRoom || error is NotOwner || error is NotMember,
        status_of(error) == 404 <==> error is NoSuchRoom,
        status_of(error) == 409 <==> error is UsernameUnavailable || error is UsernameTaken || error is TooManyRooms || error is RoomFull,
        status_of(error) == 429 <==> error is RegistrationsTooFrequent || error is LoginsTooFrequent,
        status_of(error) == 500 <==> error is Database || error is Internal,
        status_of(error) == 503 <==> error is Busy,
        status_of(error) == 400 <==> status_of(error) != 401 && status_of(error) != 403 && status_of(error) != 404 && status_of(error) != 409 && status_of(error) != 429 && status_of(error) != 500 && status_of(error) != 503,
{
}

/// The text of each refusal, as a client reads it.
pub proof fn law_texts()
    ensures
        message_of(ApiError::BadUsername) == "用户名长度必须为 2-24 个字符"@,
        message_of(ApiError::BadPassword) == "密码长度必须为 6-128 个字符"@,
        message_of(ApiError::PasswordsDiffer) == "两次输入的密码不一致"@,
        message_of(ApiError::BadRegistrationMode) == "注册模式无效"@,
        message_of(ApiError::InviteMissing) == "邀请码模式必须设置邀请码"@,
        message_of(ApiError::NotADatabase) == "无效的 SQLite 备份文件"@,
        message_of(ApiError::UnusableBackup) == "备份文件无效或结构不兼容"@,
        message_of(ApiError::RoomNameTooLong) == "聊天室名称最多 40 个字符"@,
        message_of(ApiError::BadRoomCode) == "房间码必须为 6 个字符"@,
        message_of(ApiError::BadNewPassword) == "新密码长度必须为 6-128 个字符"@,
        message_of(ApiError::NewPasswordsDiffer) == "两次输入的新密码不一致"@,
        message_of(ApiError::SearchTooLong) == "搜索关键词最多 128 个字符"@,
        message_of(ApiError::MessageTooLong) == "消息最多 2000 个字符"@,
        message_of(ApiError::MessageEmpty) == "消息不能为空"@,
        message_of(ApiError::NotLoggedIn) == "请先登录"@,
        message_of(ApiError::WrongCredentials) == "用户名或密码错误"@,
        message_of(ApiError::WrongPassword) == "当前密码错误"@,
        message_of(ApiError::WrongOrigin) == "无效的请求来源"@,
        message_of(ApiError::BadInvite) == "请输入有效的邀请码"@,
        message_of(ApiError::NotAdmin) == "需要管理员权限"@,
        message_of(ApiError::SystemRoom) == "公共大厅不可删除"@,
        message_of(ApiError::NotOwner) == "只有房主可以删除聊天室"@,
        message_of(ApiError::NotMember) == "你不是该聊天室成员"@,
        message_of(ApiError::NoSuchRoom) == "聊天室不存在"@,
        message_of(ApiError::UsernameUnavailable) == "该用户名不可用"@,
        message_of(ApiError::UsernameTaken) == "用户名已存在"@,
        message_of(ApiError::TooManyRooms) == "创建的聊天室数量已达上限"@,
        message_of(ApiError::RoomFull) == "该聊天室消息数量已达上限"@,
        message_of(ApiError::RegistrationsTooFrequent) == "注册尝试过于频繁，请稍后重试"@,
        message_of(ApiError::LoginsTooFrequent) == "登录尝试过于频繁，请稍后重试"@,
        message_of(ApiError::Database) == "数据库错误"@,
        message_of(ApiError::Internal) == "服务器内部错误"@,
        message_of(ApiError::Busy) == "服务器繁忙，请稍后重试"@,
{
}

/// What storage gives is handed on as it is, and whatever goes wrong there is a failure
/// of the database.
pub proof fn law_storage_is_handed_on<T>(
    result: Result<T, StorageError>,
    answer: Result<T, ApiError>,
)
    requires
        call_ensures(from_storage::<T>, (result,), answer),
    ensures
        result matches Ok(value) ==> answer == Ok::<T, ApiError>(value),
        result is Err ==> answer == Err::<T, ApiError>(ApiError::Database),
{
}

} // verus!
