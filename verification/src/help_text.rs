//! The help texts. Each `%` in a template stands for the name under which the program runs.
use crate::help::{HelpTopic, Subcommand};
use crate::text::chars_of;
use vstd::prelude::*;

verus! {

/// A template with a name in place of each `%`.
pub open spec fn filled(template: Seq<char>, name: Seq<char>) -> Seq<char>
    decreases template.len(),
{
    if template.len() == 0 {
        template
    } else if template.last() == '%' {
        filled(template.drop_last(), name) + name
    } else {
        filled(template.drop_last(), name).push(template.last())
    }
}

/// The text that a template makes for a name.
pub fn fill(template: &str, name: &str) -> (text: String)
    ensures
        text@ == filled(template@, name@),
{
    let chars = chars_of(template);
    let mut text = String::new();
    let mut i: usize = 0;
    proof {
        assert(template@.take(0) =~= Seq::<char>::empty());
        assert(text@ =~= filled(template@.take(0), name@));
    }
    while i < chars.len()
        invariant
            i <= chars.len(),
            chars@ == template@,
            text@ == filled(template@.take(i as int), name@),
        decreases chars.len() - i,
    {
        assert(template@.take(i + 1).drop_last() == template@.take(i as int));
        if chars[i] == '%' {
            text.append(name);
        } else {
            text.push(chars[i]);
        }
        i += 1;
    }
    assert(template@.take(i as int) == template@);
    text
}

pub const USAGE: &'static str = "使い方: % <コマンド>

コマンド:
  control     DUALSHOCK 4 の入力を読み取り、シリアル出力へ送信
  io          複数シリアルポートの送信と受信を同一画面で監視
  monitor     1 つ以上のシリアルポートを監視
  route       シリアル入力と出力の間でバイト列を中継
  send        指定形式のダミーデータを継続してシリアルポートへ送信
  xbee-talk   端末入力を UTF-8 + CRLF として XBee へ送信
  xbee-mock   xbee-test の通信モデルの片側を単一ポートで実行
  xbee-rtt    1 組の XBee 間で接続性と往復時間を確認
  xbee-test   base/remote ポート間で AU/RU と AD/RD を相互試験
  controllers 接続中の DUALSHOCK 4 コントローラーを一覧表示
  ports       利用可能なシリアルポートを一覧表示
  update      GitHub tag の一覧表示と tag 指定更新
  version     ビルド版情報とソース情報を表示
  help        コマンドのヘルプを表示

インストール済みビルドの情報は `% --version` または `% version` で確認できます。

詳細は `% help control`、`% help io`、`% help monitor`、`% help route`、`% help send`、`% help update`、`% help xbee-talk`、`% help xbee-mock`、`% help xbee-rtt`、`% help xbee-test` で確認できます。
";

pub const OVERVIEW: &'static str = "使い方: % <コマンド>

コマンド:
  control     DUALSHOCK 4 の入力を読み取り、シリアル出力へ送信
  io          複数シリアルポートの送信と受信を同一画面で監視
  monitor     1 つ以上のシリアルポートを監視
  route       シリアル入力と出力の間でバイト列を中継
  send        指定形式のダミーデータを継続してシリアルポートへ送信
  xbee-talk   端末入力を UTF-8 + CRLF として XBee へ送信
  xbee-mock   xbee-test の通信モデルの片側を単一ポートで実行
  xbee-rtt    1 組の XBee 間で接続性と往復時間を確認
  xbee-test   base/remote ポート間で AU/RU と AD/RD を相互試験
  controllers 接続中の DUALSHOCK 4 コントローラーを一覧表示
  ports       利用可能なシリアルポートを一覧表示
  update      GitHub tag の一覧表示と tag 指定更新
  version     ビルド版情報とソース情報を表示
  help        コマンドのヘルプを表示

例:
  % control --port /dev/ttyUSB0 --config FORMAT=PacketACv6
  % control --port /dev/ttyUSB0@921600,hex --monitor /dev/ttyUSB1@115200,utf8+packet,packetjfv1 --config FORMAT=PacketACv6
  % monitor --port /dev/ttyUSB0@921600 --no-log
  % route merge -i in_a=/dev/ttyUSB0,utf8 -o out_main=/dev/ttyUSB1,hex
  % send --port /dev/ttyUSB0@921600 --config FORMAT=PacketJFv1,RATE=100
  % io -i /dev/ttyUSB1@115200,utf8,packetjfv1 -o main=/dev/ttyUSB0@921600,hex,packetacv6,10
  % xbee-talk --port /dev/ttyUSB0@115200,utf8
  % xbee-rtt --port /dev/ttyUSB0
  % xbee-test --port base=/dev/ttyUSB0 --port remote=/dev/ttyUSB1 --config AU_RATE=100,AD_RATE=100
  % xbee-mock base -p /dev/ttyUSB0 --config PAIR=1,TX_FORMAT=packetacv6@100+roverupgeneral@20,RX_FORMAT=packetjfv1+roverdowngeneral,TRAFFIC_PATTERN=flood
  % update list
  % update latest
  % --version

コントローラーまたはシリアルポートが 1 つだけ利用可能な場合は、自動で選択されます。
各ポート指定で baud を省略した場合は 115200 が使われます。
真偽値以外の多くの設定は `--config KEY=VALUE,...` でまとめて指定できます。
";

pub const UPDATE_HELP: &'static str = "使い方: % update <list|latest|VERSION>

GitHub 上に存在する tag だけを更新対象として扱います。
更新対象の未指定は許可されません。`list`、`latest`、または VERSION を明示してください。

引数:
  list     利用可能な GitHub tag を新しい順に表示
  latest   最新の GitHub tag へ更新
  VERSION  指定した GitHub tag へ更新（例: v1.2.2 または 1.2.2）

例:
  % update list
  % update latest
  % update v1.2.2

対象リポジトリは環境変数 ACS_REPO_URL で上書きできます。
";

pub const CONTROL_HELP: &'static str = "使い方: % control [オプション]

DUALSHOCK 4 コントローラーを読み取り、整形したバイト列をシリアルポートへ書き込みます。
受信監視は `--monitor` で明示したポートだけを開きます。出力ポートを監視したい場合も `--monitor` で指定してください。
`acs control` だけで、送信ポート、ボーレート、表示形式、送信フォーマットを対話式に選択できます。
`--monitor` を指定した場合だけ、受信監視ポートも対話式または引数で追加できます。
DUALSHOCK 4 が 1 台だけの場合は自動選択し、複数台ある場合だけ対話式に選択します。

オプション:
  -p, --port <PORT[@BAUD][,DISPLAY]> シリアル出力ポート
                              PORT にはデバイスパスまたは `acs ports` の番号を指定できます
                              BAUD を省略した場合は 115200 が使われます
                              省略すると対話式に選択します
  -f, --format <FORMAT>      送信フォーマット。値を省略すると対話式に選択
                              FORMAT: packetacv6/packetmv1/packetgcv1
  -r, --rate <HZ>            固定送信レート
                              既定値: packetacv6/packetmv1 は 100 Hz、それ以外は 20 Hz
  -c, --controller <INDEX|PATH> 使用する DUALSHOCK 4（省略時は自動/対話選択）
  -m, --monitor <PORT[@BAUD][,DISPLAY][,FORMAT[+FORMAT...]]>
                              受信監視するシリアルポート（繰り返し指定可）。値を省略すると対話式に選択
                              FORMAT 指定時はパケット単位で表示し、RX Hz とデータレートを表示します
                              FORMAT: packetacv6/packetmv1/packetgcv1/packetiv1/packetbv1/packetjfv1/roverupgeneral/roverdowngeneral
      --config <K=V,...>     設定をまとめて指定: `CONTROLLER`, `FORMAT`, `RATE`, `DISPLAY`, `LOG_DIR`
                              `FORMAT`: 出力フォーマット（packetacv6 / packetmv1 / packetgcv1）
                              `RATE`: 固定送信レート (Hz)
                              `DISPLAY`: ポートの表示モード
                              TARGET: PORT, input:PORT, output:PORT,
                                      default, input:default, output:default
                              MODE: hex/ascii/utf8/hex+ascii/hex+utf8
                                    入力表示では任意で +line/+packet/+wrap/+crlf を追加できます
      --no-log               ログファイル作成を無効化して最大スループットを優先
      --s3b                  XBee Pro 900-HP (S3B) bootloader menu を事前復帰
                              互換性のため、値を取る旧形式フラグも引き続き利用可能です
  -h, --help                 このヘルプを表示

例:
  % control
  % control --port /dev/ttyUSB0 --config FORMAT=PacketACv6,RATE=100
  % control --port /dev/ttyUSB0 --config FORMAT=PacketMv1,RATE=100
  % control --port /dev/ttyUSB0 --config FORMAT=PacketGCv1,RATE=20
  % control --port /dev/ttyUSB0@921600,hex --monitor /dev/ttyUSB1@115200,utf8+packet,packetjfv1 --config FORMAT=PacketACv6
  % control --config DISPLAY=input:default=utf8+packet --monitor /dev/ttyUSB1,packetjfv1
  % control --monitor /dev/ttyUSB1,ascii+crlf,roverupgeneral
  % control --config DISPLAY=input:/dev/ttyUSB0=utf8 --config DISPLAY=output:/dev/ttyUSB0=hex
  % control -m
  % control --config CONTROLLER=0 --monitor /dev/ttyUSB1,packetjfv1 --no-log
";

pub const IO_HELP: &'static str = "使い方: % io -i [PORT[@BAUD][,DISPLAY][,FORMAT[+FORMAT...]]] -o [ID=PORT[@BAUD][,DISPLAY][,FORMAT][,RATE]]

複数の受信ポートと送信ポートを同一画面で監視します。
送信ポートは選択したフォーマットのダミーペイロードを繰り返し送信し、受信側は raw または指定フォーマットで表示します。
`-i` または `-o` を値なしで指定すると、矢印上下と Enter でポート、フォーマット、ボーレート、送信レートを選択できます。
既定値は baud=115200、送信レート=10 Hz です。

オプション:
  -i, --input <PORT[@BAUD][,DISPLAY][,FORMAT[+FORMAT...]]>
                              受信ポート（繰り返し指定可）。値を省略すると対話式に選択
  -o, --output <ID=PORT[@BAUD][,DISPLAY][,FORMAT][,RATE]>
                              送信ポート（繰り返し指定可）。値を省略すると対話式に選択
                              ID= は同一ポートへ複数形式を送る場合に指定します
                              DISPLAY: hex/ascii/utf8/hex+ascii/hex+utf8
                              受信では +line/+packet/+wrap/+crlf も指定できます
                              FORMAT: packetacv6/packetmv1/packetgcv1/packetiv1/packetbv1/packetjfv1/roverupgeneral/roverdowngeneral
      --display <TARGET=MODE> 既存コマンドと同じ表示上書き
      --no-log               ログファイル作成を無効化して最大スループットを優先
      --s3b                  XBee Pro 900-HP (S3B) bootloader menu を事前復帰
  -h, --help                 このヘルプを表示

例:
  % io -i
  % io -o
  % io -i /dev/ttyUSB1@115200,utf8,packetjfv1
  % io -o main=/dev/ttyUSB0@921600,hex,packetacv6,10 -o sub=/dev/ttyUSB1@115200,utf8,roverupgeneral,10
  % io -i /dev/ttyUSB1,packetacv6+packetjfv1 -o ac=/dev/ttyUSB0@921600,hex,packetacv6,100
  % io -i /dev/ttyUSB1,ascii+crlf,roverdowngeneral -o rover=/dev/ttyUSB0,ascii,roverupgeneral,20
";

pub const XBEE_TALK_HELP: &'static str = "使い方: % xbee-talk [オプション]

端末入力を 1 行ずつ読み取り、UTF-8 バイト列の末尾に \\r\\n を付けて XBee へ送信します。
送信ポートは同時に受信監視され、追加の受信ポートも同じ画面に表示できます。

オプション:
  -p, --port <PORT[@BAUD][,DISPLAY]> 送信するシリアルポート
                              PORT にはデバイスパスまたは `acs ports` の番号を指定できます
                              BAUD を省略した場合は 115200 が使われます
      --input <PORT[@BAUD][,DISPLAY]> 追加で受信監視するポート
  -m, --monitor <PORT[@BAUD][,DISPLAY]> `--input` と同じ
      --display <TARGET=MODE> 表示形式を上書き。受信では +crlf も指定できます
      --config <K=V,...>     設定をまとめて指定: `BAUD`, `DISPLAY`, `LOG_DIR`
      --no-log               ログファイル作成を無効化して最大スループットを優先
      --s3b                  XBee Pro 900-HP (S3B) bootloader menu を事前復帰
  -h, --help                 このヘルプを表示

例:
  % xbee-talk --port /dev/ttyUSB0
  % xbee-talk --port /dev/ttyUSB0@115200,utf8
  % xbee-talk --port /dev/ttyUSB0 --input /dev/ttyUSB1,hex+packet
  % xbee-talk --port /dev/ttyUSB0 --input /dev/ttyUSB1,ascii+crlf
  % xbee-talk --port /dev/ttyUSB0 --config DISPLAY=input:default=utf8+line
";

pub const XBEE_TEST_HELP: &'static str = "使い方: % xbee-test [オプション]

`base` から `remote` へ AU(PacketACv6) + RU(RoverUpGeneral)、`remote` から `base` へ AD(PacketJFv1) + RD(RoverDownGeneral) を送信します。
モードは `flood`、`ping-pong`、`polling` です。
各ポートを同時に監視し、ダッシュボードにはポートごとの TX/RX パケットレートと一致数/エラー数を表示します。
高レート監視を軽量に行うため、入出力表示は hex packet に固定されています。
ヘッダーには実際の表示 FPS も表示され、RX レートやエラーカウンタは端末更新速度とは独立して追跡されます。

オプション:
  -p, --port <ID=PORT[@BAUD]> ポート割り当て。ID: `base`, `remote`
                              PORT にはデバイスパスまたは `acs ports` の番号を指定できます
                              BAUD を省略した場合は 115200 が使われます
      --config <K=V,...>     設定をまとめて指定: `MODE`, `POLL_RATE`, `BASE_REAL_PERCENT`,
                              `REMOTE_REAL_PERCENT`, `AU_RATE`, `RU_RATE`, `AD_RATE`, `RD_RATE`, `LOG_DIR`
                              `MODE`: `flood`, `ping-pong`, `polling`（既定値: flood）
                              `AD_RATE` / `RD_RATE` は `ping-pong` では無視されます
      --no-log               ログファイル作成を無効化して最大スループットを優先
      --s3b                  XBee Pro 900-HP (S3B) bootloader menu を事前復帰
                              互換性のため、値を取る旧形式フラグも引き続き利用可能です
  -h, --help                 このヘルプを表示

例:
  % xbee-test --port base=/dev/ttyUSB0 --port remote=/dev/ttyUSB1
  % xbee-test --port base=/dev/ttyUSB0@921600 --port remote=/dev/ttyUSB1@921600 --config AU_RATE=100,RU_RATE=50,AD_RATE=80,RD_RATE=40
  % xbee-test --port base=/dev/ttyUSB0 --port remote=/dev/ttyUSB1 --config MODE=ping-pong,AU_RATE=100,RU_RATE=50
  % xbee-test --port base=/dev/ttyUSB0 --port remote=/dev/ttyUSB1 --config MODE=polling,POLL_RATE=100,BASE_REAL_PERCENT=10,REMOTE_REAL_PERCENT=20
  % xbee-test --port base=/dev/ttyUSB0 --port remote=/dev/ttyUSB1 --no-log
";

pub const XBEE_RTT_HELP: &'static str = "使い方: % xbee-rtt [オプション]

1 組の XBee 間で、対称な接続確認と双方向 RTT 計測を行います。
通常モードでは各 PC にローカルなシリアルポートを 1 つずつ使い、両方の PC で同じコマンドを実行すると、どちらが先に測定するかを自動交渉します。
`--port` を 2 回指定した場合だけ、1 プロセスで 2 つのローカル XBee を駆動し、ローカルペアとして扱います。
ノイズ後にもデコーダーが再同期できるよう、セッション ID・長さ・CRC16 を含むコンパクトなバイナリフレームを使います。

オプション:
  -p, --port <PORT[@BAUD]>    1 台の XBee モジュールに接続するローカルシリアルポート
                              PORT にはデバイスパスまたは `acs ports` の番号を指定できます
                              BAUD を省略した場合は 115200 が使われます
                              省略するとシリアルポートが 1 つだけある場合に自動選択します
                              1 PC ローカルペアモードのときだけ 2 回指定します
      --config <K=V,...>      設定をまとめて指定: `PAYLOAD_SIZE`, `COUNT`, `INTERVAL_MS`,
                              `PROBE_TIMEOUT_MS`, `CONNECT_TIMEOUT_MS`
      --show-wire            送受信バイト列を hex で継続表示。TX は青、RX は赤
                            1 PC ローカルペアモードでは各チャンクに [0>] / [1<] を付けます
      --show-protocol        デコード済みの HELLO / PROBE / RESULT 形式ログを継続表示
                            同じ青/赤の色分けと [0>] / [1<] 接頭辞を使います
      --s3b                 XBee Pro 900-HP (S3B) bootloader menu を事前復帰
  -h, --help                 このヘルプを表示

例:
  % xbee-rtt --port /dev/ttyUSB0
  # もう片方の PC でも同じコマンドを実行
  % xbee-rtt --port /dev/ttyUSB0 --show-wire
  % xbee-rtt --port /dev/ttyUSB0 --show-protocol
  % xbee-rtt --port /dev/ttyUSB0@921600 --config PAYLOAD_SIZE=64,COUNT=20,INTERVAL_MS=50
  % xbee-rtt --port /dev/ttyUSB0@921600 --port /dev/ttyUSB1@921600 --config PAYLOAD_SIZE=64,COUNT=20,INTERVAL_MS=50
";

pub const XBEE_MOCK_HELP: &'static str = "使い方: % xbee-mock <ロール> [オプション]
       % xbee-mock --role <ロール> [オプション]

明示的な uplink/downlink 割り当てで、xbee 通信モデルの `base` 側または `remote` 側を実行します。
`PAIR=1` では 1 つのポートを両方向で共有します。`PAIR=2` では `up` と `down` を別々に割り当てます。
高レート監視を軽量に行うため、表示は hex packet モード固定です。

ロール:
  base    uplink が TX、downlink が RX
  remote  uplink が RX、downlink が TX

オプション:
  -p, --port <PORT[@BAUD]>   `PAIR=1` 用のポート割り当て
  -p, --port <up=PORT[@BAUD]> `PAIR=2` 用の uplink 割り当て
  -p, --port <down=PORT[@BAUD]> `PAIR=2` 用の downlink 割り当て
                              PORT にはデバイスパスまたは `acs ports` の番号を指定できます
                              BAUD を省略した場合は 115200 が使われます
      --config <K=V,...>     設定をまとめて指定: `ROLE`, `PAIR`, `TX_FORMAT`, `RX_FORMAT`, `TRAFFIC_PATTERN`, `LOG_DIR`
                              `PAIR`: `1` または `2`（既定値: 1）
                              `TX_FORMAT`: `<FORMAT[@RATE]>[+<FORMAT[@RATE]>...]`
                              `RX_FORMAT`: `<FORMAT>[+<FORMAT>...]`
                              `TRAFFIC_PATTERN`: `flood`, `ping-pong`, `polling`
                              Poll 系フォーマットは `PollGreeting` / `PollResponse` です
                              旧エイリアス: `--option`
      --no-log               ログファイル作成を無効化して最大スループットを優先
      --s3b                  XBee Pro 900-HP (S3B) bootloader menu を事前復帰
                              互換性のため、値を取る旧形式フラグも引き続き利用可能です
  -h, --help                 このヘルプを表示

例:
  % xbee-mock base -p /dev/ttyUSB0@921600 --config PAIR=1,TX_FORMAT=packetacv6@100+roverupgeneral@20,RX_FORMAT=packetjfv1+roverdowngeneral,TRAFFIC_PATTERN=flood
  % xbee-mock base -p up=/dev/ttyUSB0@921600 -p down=/dev/ttyUSB1@921600 --config PAIR=2,TX_FORMAT=packetacv6@100+roverupgeneral@20,RX_FORMAT=packetjfv1+roverdowngeneral,TRAFFIC_PATTERN=ping-pong
  % xbee-mock remote -p up=/dev/ttyUSB0@921600 -p down=/dev/ttyUSB1@921600 --config PAIR=2,TX_FORMAT=pollresponse@100,RX_FORMAT=pollgreeting,TRAFFIC_PATTERN=polling
  % xbee-mock -p /dev/ttyUSB0 --config ROLE=remote,PAIR=1,TX_FORMAT=packetjfv1@80+roverdowngeneral@70,RX_FORMAT=packetacv6+roverupgeneral,TRAFFIC_PATTERN=flood --no-log
";

pub const MONITOR_HELP: &'static str = "使い方: % monitor [オプション]

1 つ以上のシリアルポートを監視し、受信したバイト列を表示します。
ポートを省略した場合は、利用可能なポートが 1 つだけであれば自動で選択します。

オプション:
  -p, --port <PORT[@BAUD][,DISPLAY]> 監視するシリアルポート（繰り返し指定可）
                              PORT にはデバイスパスまたは `acs ports` の番号を指定できます
                              BAUD を省略した場合は 115200 が使われます
      --config <K=V,...>     設定をまとめて指定: `DISPLAY`, `LOG_DIR`
                              `DISPLAY`: ポートの表示モード
                              TARGET: PORT, input:PORT, default, input:default
                              MODE: hex/ascii/utf8/hex+ascii/hex+utf8
                                    任意で +line/+packet/+wrap/+crlf を追加できます
      --no-log               ログファイル作成を無効化して最大スループットを優先
                              互換性のため、値を取る旧形式フラグも引き続き利用可能です
  -h, --help                 このヘルプを表示

例:
  % monitor
  % monitor --port /dev/ttyUSB0@921600 --no-log
  % monitor --port /dev/ttyUSB0,hex --port /dev/ttyUSB1@115200,utf8+line
  % monitor --port 0 --config DISPLAY=input:default=utf8+line
";

pub const SEND_HELP: &'static str = "使い方: % send [オプション]

指定形式のダミーデータを継続してシリアルポートへ送信します。
同一ポートの mixed-format 受信でも packet を再同期し、format ごとの受信 Hz をヘッダに表示します。

オプション:
  -p, --port <PORT[@BAUD][,DISPLAY]> 送信するシリアルポート
                              PORT にはデバイスパスまたは `acs ports` の番号を指定できます
                              BAUD を省略した場合は 115200 が使われます
  -o, --output-port <[ID=]PORT[@BAUD][,DISPLAY][,FORMAT][,RATE]>
                              送信ポート（繰り返し指定可）。`--port` とは併用できません
                              ID= は同一ポートへ複数形式を送る場合に指定します
  -m, --monitor <PORT[@BAUD][,DISPLAY][,FORMAT[+FORMAT...]]>
                              受信監視するシリアルポート（繰り返し指定可）
                              FORMAT を複数指定すると、それぞれの既定表示で表示します
                              FORMAT: packetacv6/packetmv1/packetgcv1/packetiv1/packetbv1/packetjfv1/roverupgeneral/roverdowngeneral
  -i, --interactive          端末入力を 1 行ずつ読み取り、末尾に \\r\\n を付けて送信
      --config <K=V,...>     設定をまとめて指定: `RATE`, `FORMAT`, `DISPLAY`, `LOG_DIR`
                              `RATE`: 送信レート (Hz、既定値: 50)
                              `FORMAT`: 送信フォーマット（既定値: packetacv6）
                              `DISPLAY`: ポートの表示モード
                              TARGET: PORT, input:PORT, output:PORT,
                                      default, input:default, output:default
                              MODE: hex/ascii/utf8/hex+ascii/hex+utf8
                                    入力表示では任意で +line/+packet/+wrap/+crlf を追加できます
      --no-log               ログファイル作成を無効化して最大スループットを優先
      --s3b                  XBee Pro 900-HP (S3B) bootloader menu を事前復帰
                              互換性のため、値を取る旧形式フラグも引き続き利用可能です
  -h, --help                 このヘルプを表示

例:
  % send --port /dev/ttyUSB0@921600 --config FORMAT=PacketJFv1,RATE=100
  % send --port /dev/ttyUSB0@921600 --config FORMAT=PacketACv6 --no-log
  % send -o ac=/dev/ttyUSB0@921600,hex,packetacv6,100 -o up=/dev/ttyUSB0@921600,utf8,roverupgeneral,10
  % send --port /dev/ttyUSB0@921600 --monitor /dev/ttyUSB1@115200,packetacv6+packetjfv1 --config FORMAT=PacketACv6
";

pub const ROUTE_HELP: &'static str = "使い方: % route [テンプレート] [オプション]

1 つ以上のシリアル入力から 1 つ以上のシリアル出力へバイト列を中継します。
中継動作は組み込みルートテンプレートから選べます。

オプション:
      --list-templates        組み込みルートテンプレートを表示
  -i, --input-port <ID=PORT[@BAUD][,DISPLAY]>  中継元の入力ポート（繰り返し指定可）
  -o, --output-port <ID=PORT[@BAUD][,DISPLAY]> 中継先の出力ポート（繰り返し指定可）
                               PORT にはデバイスパスまたは `acs ports` の番号を指定できます
                               BAUD を省略した場合は 115200 が使われます
      --config <K=V,...>      設定をまとめて指定: `TEMPLATE`, `DISPLAY`, `LOG_DIR`
                              `TEMPLATE` は位置引数の TEMPLATE と同じです
                              `DISPLAY`: ポートの表示モード
                              TARGET: PORT, input:PORT, output:PORT,
                                      default, input:default, output:default
                              MODE: hex/ascii/utf8/hex+ascii/hex+utf8
                                    入力表示では任意で +line/+packet/+wrap/+crlf を追加できます
      --no-log                ログファイル作成を無効化して最大スループットを優先
      --s3b                   XBee Pro 900-HP (S3B) bootloader menu を事前復帰
                              互換性のため、値を取る旧形式フラグも引き続き利用可能です
  -h, --help                  このヘルプを表示

組み込みテンプレート:
  merge            到着順のバイト列をすべての出力へそのまま転送
  one-to-one       入出力配列を順番で対応付けてそのまま中継

例:
  % route merge -i in_a=/dev/ttyUSB0 -o out_main=/dev/ttyUSB1
  % route merge -i in_a=/dev/ttyUSB0@921600 -i in_b=/dev/ttyUSB1@115200 -o out_main=/dev/ttyUSB2@921600
  % route -i in_a=/dev/ttyUSB0,utf8 -o out_main=/dev/ttyUSB2,hex --config TEMPLATE=merge
  % route one-to-one -i in_a=/dev/ttyUSB0 -i in_b=/dev/ttyUSB1 -o out_a=/dev/ttyUSB2 -o out_b=/dev/ttyUSB3 --no-log
  % route --list-templates
";

pub const CONTROLLERS_HELP: &'static str = "使い方: % controllers

接続中の DUALSHOCK 4 コントローラーと、その接続方式、VID/PID、インターフェース、製品名、パスを一覧表示します。
";

pub const PORTS_HELP: &'static str = "使い方: % ports

利用可能なシリアルポートと、取得できる場合は USB メタデータを一覧表示します。
";

pub const VERSION_HELP: &'static str = "使い方: % --version
       % version

パッケージ版に加えて、コミット、ブランチ、取得元種別、ワークツリーが dirty/clean かといったビルド元情報を表示します。
";

/// The template of a topic; a topic that is not there has the overview.
pub open spec fn topic_template(topic: HelpTopic) -> Seq<char> {
    match topic {
        HelpTopic::Overview => OVERVIEW@,
        HelpTopic::Command(Subcommand::Control) => CONTROL_HELP@,
        HelpTopic::Command(Subcommand::Io) => IO_HELP@,
        HelpTopic::Command(Subcommand::Monitor) => MONITOR_HELP@,
        HelpTopic::Command(Subcommand::Route) => ROUTE_HELP@,
        HelpTopic::Command(Subcommand::Send) => SEND_HELP@,
        HelpTopic::Command(Subcommand::XbeeTalk) => XBEE_TALK_HELP@,
        HelpTopic::Command(Subcommand::XbeeMock) => XBEE_MOCK_HELP@,
        HelpTopic::Command(Subcommand::XbeeRtt) => XBEE_RTT_HELP@,
        HelpTopic::Command(Subcommand::XbeeTest) => XBEE_TEST_HELP@,
        HelpTopic::Command(Subcommand::Update) => UPDATE_HELP@,
        HelpTopic::Controllers => CONTROLLERS_HELP@,
        HelpTopic::Ports => PORTS_HELP@,
        HelpTopic::Version => VERSION_HELP@,
        HelpTopic::Unknown => OVERVIEW@,
    }
}

/// The help on a topic.
pub fn help_text(topic: HelpTopic, bin_name: &str) -> (text: String)
    ensures
        text@ == filled(topic_template(topic), bin_name@),
{
    let template: &'static str = match topic {
        HelpTopic::Overview => OVERVIEW,
        HelpTopic::Command(Subcommand::Control) => CONTROL_HELP,
        HelpTopic::Command(Subcommand::Io) => IO_HELP,
        HelpTopic::Command(Subcommand::Monitor) => MONITOR_HELP,
        HelpTopic::Command(Subcommand::Route) => ROUTE_HELP,
        HelpTopic::Command(Subcommand::Send) => SEND_HELP,
        HelpTopic::Command(Subcommand::XbeeTalk) => XBEE_TALK_HELP,
        HelpTopic::Command(Subcommand::XbeeMock) => XBEE_MOCK_HELP,
        HelpTopic::Command(Subcommand::XbeeRtt) => XBEE_RTT_HELP,
        HelpTopic::Command(Subcommand::XbeeTest) => XBEE_TEST_HELP,
        HelpTopic::Command(Subcommand::Update) => UPDATE_HELP,
        HelpTopic::Controllers => CONTROLLERS_HELP,
        HelpTopic::Ports => PORTS_HELP,
        HelpTopic::Version => VERSION_HELP,
        HelpTopic::Unknown => OVERVIEW,
    };
    fill(template, bin_name)
}

/// How the program is used, as a command that is not there is answered.
pub fn usage_text(bin_name: &str) -> (text: String)
    ensures
        text@ == filled(USAGE@, bin_name@),
{
    fill(USAGE, bin_name)
}

} // verus!
