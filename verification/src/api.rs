//! Refusals that the handlers answer with, and the landing page.

use vstd::prelude::*;

verus! {

/// Why a request was refused.
#[derive(Clone, Copy, Debug, PartialEq, Eq, Structural)]
pub enum OtpError {
    /// No code was requested for the email, or it was used already.
    NotRequested,
    /// A code was requested for the email, but not this one.
    Mismatch,
}

/// Why a request was refused; each answers with a status and a message.
#[derive(Clone, Copy, Debug, PartialEq, Eq, Structural)]
pub enum ApiError {
    AdminLoginRequired,
    TitleEmpty,
    NameOrSlugEmpty,
    TitleOrSlugEmpty,
    AuthorOrBodyEmpty,
    PostNotFound,
    CategoryNotFound,
    PageNotFound,
    TagNotFound,
    CommentNotFound,
    SlugInUse,
    EmailNotRegistered,
    SmtpNotConfigured,
    MailNotSent,
    Otp(OtpError),
}

impl OtpError {
    pub open spec fn spec_message(self) -> Seq<char> {
        match self {
            OtpError::NotRequested => "no code was requested for this email"@,
            OtpError::Mismatch => "invalid code"@,
        }
    }

    /// The text that a refused code is answered with.
    pub fn message(&self) -> (r: &'static str)
        ensures
            r@ == self.spec_message(),
    {
        match self {
            OtpError::NotRequested => "no code was requested for this email",
            OtpError::Mismatch => "invalid code",
        }
    }
}

impl ApiError {
    pub open spec fn spec_status(self) -> u16 {
        match self {
            ApiError::AdminLoginRequired => 401,
            ApiError::TitleEmpty => 400,
            ApiError::NameOrSlugEmpty => 400,
            ApiError::TitleOrSlugEmpty => 400,
            ApiError::AuthorOrBodyEmpty => 400,
            ApiError::PostNotFound => 404,
            ApiError::CategoryNotFound => 404,
            ApiError::PageNotFound => 404,
            ApiError::TagNotFound => 404,
            ApiError::CommentNotFound => 404,
            ApiError::SlugInUse => 409,
            ApiError::EmailNotRegistered => 403,
            ApiError::SmtpNotConfigured => 503,
            ApiError::MailNotSent => 502,
            ApiError::Otp(_) => 403,
        }
    }

    pub open spec fn spec_message(self) -> Seq<char> {
        match self {
            ApiError::AdminLoginRequired => "admin login required"@,
            ApiError::TitleEmpty => "title must not be empty"@,
            ApiError::NameOrSlugEmpty => "name and slug must not be empty"@,
            ApiError::TitleOrSlugEmpty => "title and slug must not be empty"@,
            ApiError::AuthorOrBodyEmpty => "author_name and body must not be empty"@,
            ApiError::PostNotFound => "post not found"@,
            ApiError::CategoryNotFound => "category not found"@,
            ApiError::PageNotFound => "page not found"@,
            ApiError::TagNotFound => "tag not found"@,
            ApiError::CommentNotFound => "comment not found"@,
            ApiError::SlugInUse => "slug already in use"@,
            ApiError::EmailNotRegistered => "email not registered"@,
            ApiError::SmtpNotConfigured => "SMTP not configured"@,
            ApiError::MailNotSent => "failed to send mail"@,
            ApiError::Otp(e) => e.spec_message(),
        }
    }

    /// The HTTP status code that the refusal is answered with.
    pub fn status(&self) -> (r: u16)
        ensures
            r == self.spec_status(),
    {
        match self {
            ApiError::AdminLoginRequired => 401,
            ApiError::TitleEmpty => 400,
            ApiError::NameOrSlugEmpty => 400,
            ApiError::TitleOrSlugEmpty => 400,
            ApiError::AuthorOrBodyEmpty => 400,
            ApiError::PostNotFound => 404,
            ApiError::CategoryNotFound => 404,
            ApiError::PageNotFound => 404,
            ApiError::TagNotFound => 404,
            ApiError::CommentNotFound => 404,
            ApiError::SlugInUse => 409,
            ApiError::EmailNotRegistered => 403,
            ApiError::SmtpNotConfigured => 503,
            ApiError::MailNotSent => 502,
            ApiError::Otp(_) => 403,
        }
    }

    /// The text body that the refusal is answered with.
    pub fn message(&self) -> (r: &'static str)
        ensures
            r@ == self.spec_message(),
    {
        match self {
            ApiError::AdminLoginRequired => "admin login required",
            ApiError::TitleEmpty => "title must not be empty",
            ApiError::NameOrSlugEmpty => "name and slug must not be empty",
            ApiError::TitleOrSlugEmpty => "title and slug must not be empty",
            ApiError::AuthorOrBodyEmpty => "author_name and body must not be empty",
            ApiError::PostNotFound => "post not found",
            ApiError::CategoryNotFound => "category not found",
            ApiError::PageNotFound => "page not found",
            ApiError::TagNotFound => "tag not found",
            ApiError::CommentNotFound => "comment not found",
            ApiError::SlugInUse => "slug already in use",
            ApiError::EmailNotRegistered => "email not registered",
            ApiError::SmtpNotConfigured => "SMTP not configured",
            ApiError::MailNotSent => "failed to send mail",
            ApiError::Otp(e) => e.message(),
        }
    }
}

/// The landing page served at `/`: what the application is, the JSON
/// routes it answers, what it does not do yet, and where to download it.
pub const INDEX_HTML: &'static str = r#"<!DOCTYPE html>
<html lang="ja">
<head>
<meta charset="UTF-8">
<meta name="viewport" content="width=device-width, initial-scale=1">
<title>RS-Blog</title>
<style>
  body { font-family: system-ui, sans-serif; max-width: 780px; margin: 2rem auto; padding: 0 1rem; line-height: 1.6; color: #222; }
  h1 { margin-bottom: 0; }
  .tagline { color: #666; margin-top: 0.2rem; }
  code { background: #f2f2f2; padding: 0.1rem 0.35rem; border-radius: 3px; }
  table { border-collapse: collapse; width: 100%; margin: 1rem 0; }
  th, td { text-align: left; padding: 0.4rem 0.6rem; border-bottom: 1px solid #ddd; font-size: 0.92rem; }
  .warn { background: #fff8e1; border: 1px solid #ffe08a; border-radius: 6px; padding: 0.8rem 1rem; }
  .btn { display: inline-block; background: #2d6cdf; color: #fff; padding: 0.5rem 1rem; border-radius: 6px; text-decoration: none; margin-right: 0.5rem; }
  footer { color: #888; font-size: 0.85rem; margin-top: 2rem; }
</style>
</head>
<body>
<h1>RS-Blog</h1>
<p class="tagline">WordPress相当のブログエンジン — Rust + poem(RPoem)製、高速・高セキュリティ・省メモリ志向。v0.1.0。</p>

<h2>これは何?</h2>
<p>
  <a href="https://wordpress.org/">WordPress</a>のRust版を目指すプロジェクトです。
  v0.1.0時点では投稿(Post)のCRUDとOTPログイン(管理者のみ)を実装しています。
</p>

<h2>使い方: 現在はJSON APIのみ(ブラウザUIはまだありません)</h2>
<p>このページ以外はすべてJSON APIです。以下のエンドポイントに対して<code>curl</code>や外部クライアントからアクセスしてください。</p>
<table>
<tr><th>メソッド / パス</th><th>説明</th></tr>
<tr><td><code>GET /healthz</code></td><td>ヘルスチェック</td></tr>
<tr><td><code>POST /api/auth/request-otp</code></td><td>ログイン用ワンタイムパスワードをメール送信(管理者のみ)</td></tr>
<tr><td><code>POST /api/auth/verify-otp</code></td><td>OTPを検証してセッショントークンを発行</td></tr>
<tr><td><code>POST /api/auth/logout</code></td><td>ログアウト(トークン失効)</td></tr>
<tr><td><code>GET /api/posts</code> / <code>POST /api/posts</code></td><td>投稿一覧取得(ログイン必須) / 新規作成</td></tr>
<tr><td><code>GET /api/posts/:id</code></td><td>投稿詳細取得</td></tr>
<tr><td><code>PUT /api/posts/:id</code></td><td>投稿更新(ステータス変更含む、<code>draft</code>/<code>published</code>)</td></tr>
<tr><td><code>DELETE /api/posts/:id</code></td><td>投稿削除</td></tr>
<tr><td><code>GET /api/posts?category=:id</code></td><td>カテゴリIDで投稿を絞り込み一覧</td></tr>
<tr><td><code>GET /api/posts?tag=:id</code></td><td>タグIDで投稿を絞り込み一覧</td></tr>
<tr><td><code>GET /api/categories</code> / <code>POST /api/categories</code></td><td>カテゴリ一覧取得(ログイン必須) / 新規作成</td></tr>
<tr><td><code>DELETE /api/categories/:id</code></td><td>カテゴリ削除</td></tr>
<tr><td><code>GET /api/tags</code> / <code>POST /api/tags</code></td><td>タグ一覧取得(ログイン必須) / 新規作成</td></tr>
<tr><td><code>DELETE /api/tags/:id</code></td><td>タグ削除</td></tr>
<tr><td><code>GET /api/pages</code> / <code>POST /api/pages</code></td><td>固定ページ一覧取得(ログイン必須) / 新規作成</td></tr>
<tr><td><code>GET /api/pages/:id</code></td><td>固定ページ詳細取得(ログイン必須)</td></tr>
<tr><td><code>PUT /api/pages/:id</code></td><td>固定ページ更新(<code>slug</code>は一意性検証あり)</td></tr>
<tr><td><code>DELETE /api/pages/:id</code></td><td>固定ページ削除</td></tr>
<tr><td><code>GET /api/pages/by-slug/:slug</code></td><td>スラッグで公開固定ページ取得(未ログイン可、<code>published</code>のみ)</td></tr>
<tr><td><code>POST /api/posts/:id/comments</code></td><td>コメント投稿(未ログイン可、常に未承認状態で作成)</td></tr>
<tr><td><code>GET /api/posts/:id/comments?approved_only=true</code></td><td>指定投稿の承認済みコメント一覧(公開)</td></tr>
<tr><td><code>GET /api/comments</code></td><td>全コメント一覧(未承認含む、ログイン必須)</td></tr>
<tr><td><code>POST /api/comments/:id/approve</code></td><td>コメントを承認</td></tr>
<tr><td><code>DELETE /api/comments/:id</code></td><td>コメント削除</td></tr>
</table>

<div class="warn">
<strong>正直な開示: まだ実装していない機能</strong>
<ul>
<li>カスタム投稿タイプ</li>
<li>テーマ・ウィジェット</li>
<li>プラグイン機構(PHPプラグイン互換レイヤは技術調査段階、未着手)</li>
<li>メディアライブラリ</li>
<li>ユーザー・ロール・権限管理(登録アカウント制・アクセス制御の細分化)</li>
<li><code>aruaru-db</code>/PostgreSQL DUAL DB構成(現状はJSONファイル永続化のみ)</li>
</ul>
</div>

<h2>ダウンロード / インストール</h2>
<p>
  <a class="btn" href="https://github.com/aon-co-jp/RS-Blog/releases/latest">最新リリースをダウンロード</a>
  <a class="btn" href="https://github.com/aon-co-jp/RS-Blog">GitHubでソースを見る</a>
</p>
<p>Linux(静的リンクmuslバイナリ)・Windows向けにインストーラー付きビルド済みバイナリを配布しています。詳細は<a href="https://github.com/aon-co-jp/RS-Blog#readme">README</a>参照。</p>

<footer>RS-Blog v0.1.0 &mdash; <a href="https://github.com/aon-co-jp/RS-Blog">aon-co-jp/RS-Blog</a></footer>
</body>
</html>
"#;

/// The landing page.
pub fn index() -> (r: &'static str)
    ensures
        r@ == INDEX_HTML@,
{
    INDEX_HTML
}

/// The answer to a health check.
pub fn healthz() -> (r: &'static str)
    ensures
        r@ == "ok"@,
{
    "ok"
}

} // verus!
