//! The page of the web console.
//!
//! Text from panes and agents is only ever set as text, never as markup. The control token
//! stands in the page as a placeholder until it is served.

use crate::text::replaced;
use crate::web::render_index;
use vstd::prelude::*;

verus! {

/// Head of the page and the style of its frame.
pub const STYLE_BASE: &'static str = r##"<!doctype html>
<html lang="zh-CN">
  <head>
    <meta charset="utf-8">
    <meta name="viewport" content="width=device-width, initial-scale=1">
    <meta name="color-scheme" content="light">
    <meta name="control-token" content="__TMUX_CONTROL_TOKEN__">
    <title>tmux 控制台</title>
    <style>
      :root {
        --bg: #ffffff;
        --panel: #ffffff;
        --panel-2: #f7f7f8;
        --line: #e5e5e8;
        --text: #202123;
        --muted: #6b6c7b;
        --mono: ui-monospace, SFMono-Regular, Menlo, Consolas, monospace;
      }
      * { box-sizing: border-box; }
      [hidden] { display: none; }
      body {
        margin: 0;
        height: 100vh;
        display: grid;
        grid-template-columns: 260px 1fr;
        grid-template-rows: auto 1fr;
        background: var(--bg);
        color: var(--text);
        font: 14px/1.5 system-ui, sans-serif;
      }
      header {
        grid-column: 1 / -1;
        display: flex;
        gap: 12px;
        align-items: center;
        padding: 8px 16px;
        border-bottom: 1px solid var(--line);
      }
      header h1 { font-size: 15px; margin: 0 auto 0 0; }
      button { font: inherit; cursor: pointer; }
      .gate-modes {
        position: relative;
        display: grid;
        grid-template-columns: repeat(3, 72px);
        padding: 2px;
        border-radius: 8px;
        background: #ececf1;
      }
      .gate-modes::before {
        content: "";
        position: absolute;
        top: 2px;
        left: 2px;
        width: 72px;
        height: calc(100% - 4px);
        border-radius: 6px;
        background: var(--panel);
        transition: transform 120ms ease;
      }
      .gate-modes[data-mode="tools"]::before { transform: translateX(72px); }
      .gate-modes[data-mode="approval"]::before { transform: translateX(144px); }
      .gate-modes button { position: relative; border: 0; background: none; padding: 4px 0; }
      nav { overflow: auto; padding: 12px; background: var(--panel-2); border-right: 1px solid var(--line); }
      nav ul { list-style: none; margin: 0; padding-left: 12px; }
      .pane-button { width: 100%; text-align: left; border: 0; background: none; padding: 2px 8px; }
      .pane-button[aria-current="true"] { border-left: 3px solid var(--text); background: #ececf1; }
      main { display: flex; flex-direction: column; min-height: 0; }
      .tabs { display: flex; gap: 8px; padding: 8px 16px; border-bottom: 1px solid var(--line); }
      .tabs button[aria-pressed="true"] { font-weight: 600; }
      .view { flex: 1; display: flex; flex-direction: column; min-height: 0; }
      .view[hidden] { display: none; }
"##;

/// Style of messages, approvals and the composer.
pub const STYLE_MESSAGES: &'static str = r##"      #message-list { flex: 1; overflow: auto; padding: 16px; }
      .message-card {
        max-width: 1120px;
        margin: 0 auto 20px;
        padding: 0;
        border: 0;
      }
      .card-meta { color: var(--muted); margin: 0 0 4px; }
      .card-label { color: var(--muted); margin: 4px 0; }
      .command-line {
        display: flex;
        gap: 8px;
        margin: 0;
        padding: 6px 0;
        border: 0;
        font-family: var(--mono);
      }
      .command-prompt { color: var(--muted); }
      .shell-command { font-weight: 600; }
      .shell-option { color: #1d4ed8; }
      .shell-string { color: #166534; }
      .shell-operator { color: #b91c1c; }
      pre { margin: 0; white-space: pre-wrap; word-break: break-word; font-family: var(--mono); }
      .truncated { color: #854d0e; }
      .error { color: #b91c1c; }
      .interference { display: inline-flex; gap: 6px; align-items: center; color: #854d0e; }
      .interference[hidden] { display: none; }
      .interference::before {
        content: "";
        width: 12px;
        height: 12px;
        border: 2px solid currentColor;
        border-right-color: transparent;
        border-radius: 50%;
        animation: spin 900ms linear infinite;
      }
      @keyframes spin { to { transform: rotate(360deg); } }
      @media (prefers-reduced-motion: reduce) {
        .interference::before { animation: none; }
        .gate-modes::before { transition: none; }
      }
      .composer-stack { max-width: 1120px; width: 100%; margin: 0 auto; padding: 8px 16px 16px; }
      .approval-popover {
        width: 100%;
        margin-bottom: 8px;
        padding: 12px;
        border: 1px solid var(--line);
        background: var(--panel-2);
      }
      .approval-popover[hidden] { display: none; }
      .ai-pause-banner { display: flex; gap: 12px; align-items: center; margin-bottom: 8px; color: #854d0e; }
      .ai-pause-banner[hidden] { display: none; }
      #messages-cwd { color: var(--muted); padding: 4px 16px; max-width: 1120px; width: 100%; margin: 0 auto; }
      #messages-cwd[hidden] { display: none; }
      #command-composer { display: flex; gap: 8px; }
      #command-input { flex: 1; font-family: var(--mono); padding: 8px; }
      #terminal-snapshot { flex: 1; overflow: auto; margin: 0; padding: 16px; background: var(--panel-2); }
      .key-row { display: flex; flex-wrap: wrap; gap: 6px; padding: 8px 16px; }
      #input-text { flex: 1; font-family: var(--mono); padding: 8px; }
      dialog { width: min(960px, 92vw); max-height: 80vh; border: 1px solid var(--line); }
      .dialog-close { float: right; border: 0; background: none; font-size: 20px; }
    </style>
"##;

/// Markup of the page.
pub const BODY_MARKUP: &'static str = r##"  </head>
  <body>
    <header>
      <h1>tmux 控制台</h1>
      <span id="status-line" role="status"></span>
      <div id="gate-modes" class="gate-modes" data-mode="off" role="group" aria-label="Gate 模式">
        <button type="button" data-gate-mode="off" aria-pressed="true">关闭</button>
        <button type="button" data-gate-mode="tools" aria-pressed="false">工具</button>
        <button type="button" data-gate-mode="approval" aria-pressed="false">审批</button>
      </div>
      <button id="open-operation-log" type="button">操作日志</button>
    </header>
    <nav aria-label="pane"><ul id="pane-tree"></ul></nav>
    <main>
      <div class="tabs">
        <button id="mode-messages" type="button" aria-pressed="true">消息</button>
        <button id="mode-interactive" type="button" aria-pressed="false">交互</button>
        <span id="messages-interference" class="interference" hidden></span>
      </div>
      <section id="messages-view" class="view">
        <div id="message-list" aria-live="polite"></div>
        <div id="messages-cwd" hidden>目录 <code id="messages-cwd-path"></code></div>
        <div class="composer-stack">
          <div id="ai-pause-banner" class="ai-pause-banner" role="status" hidden>
            <span>AI 操作已暂停：无法确认 pane <code id="ai-pause-pane"></code> 的状态</span>
            <button id="ai-pause-clear" type="button">恢复 AI 操作</button>
          </div>
          <div id="approval-dialog" class="approval-popover" role="alertdialog" aria-label="审批请求" hidden>
            <p id="approval-title"></p>
            <pre id="approval-arguments"></pre>
            <button id="approval-approve" type="button">批准</button>
            <button id="approval-reject" type="button">拒绝</button>
          </div>
          <form id="command-composer">
            <input id="command-input" type="text" autocomplete="off" spellcheck="false" aria-label="命令" placeholder="输入一条命令">
            <button id="command-send" type="submit">发送</button>
          </form>
          <p id="command-error" class="error" role="alert" hidden></p>
        </div>
      </section>
      <section id="interactive-view" class="view" hidden>
        <pre id="terminal-snapshot" aria-label="终端快照"></pre>
        <div class="key-row" id="key-row"></div>
        <form id="input-form" class="key-row">
          <input id="input-text" type="text" autocomplete="off" spellcheck="false" aria-label="文本输入">
          <button type="submit">发送文本</button>
        </form>
        <p id="input-hint" class="card-meta">Enter 或切换 pane 会结束当前输入记录</p>
      </section>
    </main>
    <dialog id="operation-log" aria-label="操作日志">
      <button id="close-operation-log" class="dialog-close" type="button" aria-label="关闭" title="关闭">×</button>
      <div class="tabs">
        <button id="log-critical" type="button" aria-pressed="true">关键</button>
        <button id="log-full" type="button" aria-pressed="false">全部</button>
      </div>
      <div id="operation-list"></div>
    </dialog>
"##;

/// Elements, state, and access to the control API.
pub const SCRIPT_SETUP: &'static str = r##"    <script>
      "use strict";
      const token = document.querySelector('meta[name="control-token"]').content;
      const byId = (id) => document.getElementById(id);
      const elements = {
        status: byId("status-line"),
        gateModes: byId("gate-modes"),
        paneTree: byId("pane-tree"),
        modeMessages: byId("mode-messages"),
        modeInteractive: byId("mode-interactive"),
        messagesView: byId("messages-view"),
        interactiveView: byId("interactive-view"),
        messageList: byId("message-list"),
        messagesCwd: byId("messages-cwd"),
        messagesCwdPath: byId("messages-cwd-path"),
        messagesInterference: byId("messages-interference"),
        aiPause: byId("ai-pause-banner"),
        aiPausePane: byId("ai-pause-pane"),
        aiPauseClear: byId("ai-pause-clear"),
        approval: byId("approval-dialog"),
        approvalTitle: byId("approval-title"),
        approvalArguments: byId("approval-arguments"),
        approvalApprove: byId("approval-approve"),
        approvalReject: byId("approval-reject"),
        composer: byId("command-composer"),
        commandInput: byId("command-input"),
        commandSend: byId("command-send"),
        commandError: byId("command-error"),
        terminal: byId("terminal-snapshot"),
        keyRow: byId("key-row"),
        inputForm: byId("input-form"),
        inputText: byId("input-text"),
        inputHint: byId("input-hint"),
        log: byId("operation-log"),
        logOpen: byId("open-operation-log"),
        logClose: byId("close-operation-log"),
        logCritical: byId("log-critical"),
        logFull: byId("log-full"),
        logList: byId("operation-list"),
      };
      const LONG_CONTENT_CHARS = 1200;
      const LONG_CONTENT_LINES = 12;
      const STATE_INTERVAL_MS = 1000;
      const CAPTURE_INTERVAL_MS = 250;
      const SHELLS = new Set(["sh", "bash", "zsh", "fish", "dash", "ksh"]);
      const SPECIAL_KEYS = ["Enter", "Up", "Down", "Left", "Right", "Tab", "Escape", "BSpace", "PageUp", "PageDown", "Home", "End", "C-c", "C-d"];
      const expandedContent = new Set();
      const decidedApprovalIds = new Set();
      let selectedPane = "";
      let mode = "messages";
      let operationLogMode = "critical";
      let latestState = null;
      let stateRefreshing = false;
      let stateRefreshQueued = false;
      let capturing = false;
      let shownApprovalId = "";
      let decidingApprovalId = "";
      let approvalCooldown = false;

      async function api(path, options = {}) {
        const init = { method: options.method || "GET", headers: { "x-tmux-mcp-token": token } };
        if (options.body !== undefined) {
          init.headers["content-type"] = "application/json";
          init.body = JSON.stringify(options.body);
        }
        const response = await fetch(path, init);
        if (!response.ok) throw new Error(await response.text());
        return response.json();
      }

      function node(tag, className, text) {
        const element = document.createElement(tag);
        if (className) element.className = className;
        if (text !== undefined) element.textContent = text;
        return element;
      }

      function showStatus(text) {
        elements.status.textContent = text;
      }

      function isShellCommand(command) {
        const name = (command || "").split("/").pop().replace(/^-+/, "");
        return SHELLS.has(name);
      }

"##;

/// Commands and long texts.
pub const SCRIPT_RENDER: &'static str = r##"      function renderCommand(command) {
        const line = node("code");
        const pattern = /("(?:[^"\\]|\\.)*"|'[^']*')|(\|\||&&|[|&;<>()])|(\s+)|([^\s"'|&;<>()]+)/g;
        let expectCommand = true;
        for (const match of command.matchAll(pattern)) {
          const piece = document.createElement("span");
          if (match[1]) {
            piece.className = "shell-string";
            expectCommand = false;
          } else if (match[2]) {
            piece.className = "shell-operator";
            expectCommand = true;
          } else if (match[4] && match[4].startsWith("-")) {
            piece.className = "shell-option";
          } else if (match[4] && expectCommand) {
            piece.className = "shell-command";
            expectCommand = false;
          }
          piece.appendChild(document.createTextNode(match[0]));
          line.appendChild(piece);
        }
        return line;
      }

      function isLong(text) {
        return text.length > LONG_CONTENT_CHARS || text.split("\n").length > LONG_CONTENT_LINES;
      }

      function collapsibleContent(record, part, label, text, content) {
        if (!isLong(text)) return content;
        const key = `${record.id}:${part}`;
        const details = node("details", "long-content");
        details.open = expandedContent.has(key);
        details.addEventListener("toggle", () => {
          if (details.open) expandedContent.add(key);
          else expandedContent.delete(key);
        });
        details.appendChild(node("summary", "", `${label}（${text.length} 字符）`));
        details.appendChild(content);
        return details;
      }

      function appendLabeledPre(body, record, part, label, text, className) {
        body.appendChild(node("p", "card-label", label));
        body.appendChild(collapsibleContent(record, part, label, text, node("pre", className, text)));
      }

      function readResult(record) {
        const structured = record.result?.structuredContent;
        if (!structured) return "";
        if (record.tool === "list-directory") return (structured.entries || []) && structured.entries.join("\n");
        if (record.tool === "read-file") return structured.content || "";
        if (record.tool === "find-files") return (structured.files || []) && structured.files.join("\n");
        if (record.tool === "search-text") return (structured.matches || []) && structured.matches.join("\n");
        if (record.tool?.startsWith("git-")) return structured?.output || "";
        return "";
      }

      function readTitle(record) {
        const path = record.arguments?.path || "";
        if (record.tool === "list-directory") return `列出目录 ${path}`;
        if (record.tool === "read-file") return `读取文件 ${path}`;
        if (record.tool === "find-files") return `查找文件 ${path}`;
        if (record.tool === "search-text") return `搜索文本 ${path}`;
        if (record.tool === "git-status") return "Git 状态";
        if (record.tool === "git-diff") return "Git 差异";
        if (record.tool === "git-log") return "Git 历史";
        if (record.tool === "git-show") return "Git 提交";
        return record.tool || "";
      }

"##;

/// One card per record.
pub const SCRIPT_CARDS: &'static str = r##"      function commandCard(record, body) {
        const snapshot = record.commandSnapshot || {};
        const command = snapshot.command || record.arguments?.command || "";
        const commandText = renderCommand(command);
        const line = node("div", "command-line");
        line.appendChild(node("span", "command-prompt", "$"));
        line.appendChild(collapsibleContent(record, "command", "命令", command, commandText));
        body.appendChild(line);
        const outputText = snapshot.output || "";
        if (outputText) {
          const output = node("pre", "output-text", outputText);
          output.setAttribute("aria-label", "输出");
          body.appendChild(collapsibleContent(record, "output", "输出", outputText, output));
        }
        if (snapshot.outputTruncated && outputText) body.appendChild(node("p", "truncated", "输出已截断"));
        const details = node("details", "command-details");
        details.appendChild(node("summary", "", "运行详情"));
        details.appendChild(node("p", "card-meta", `状态 ${record.status}，退出码 ${snapshot.exitCode ?? "未知"}，用时 ${snapshot.elapsedMs ?? 0} 毫秒`));
        if (snapshot.reason) details.appendChild(node("p", "error", snapshot.reason));
        body.appendChild(details);
      }

      function messageCard(record) {
        const body = node("article", "message-card");
        const when = new Date(record.requestedAtMs).toLocaleTimeString();
        body.appendChild(node("p", "card-meta", `${record.source} · ${when}`));
        if (record.kind === "command") {
          commandCard(record, body);
        } else if (record.kind === "input") {
          const input = record.arguments?.text ?? record.arguments?.keys ?? record.tool;
          body.appendChild(collapsibleContent(record, "input", "输入", input, node("pre", "input-text", input)));
        } else {
          body.appendChild(node("p", "card-label", readTitle(record)));
          const result = readResult(record);
          if (result) appendLabeledPre(body, record, "result", "结果", result, "result-text");
        }
        return body;
      }

      function renderMessages(messages, loading = false) {
        const scrollTop = elements.messageList.scrollTop;
        const followLatest = elements.messageList.scrollHeight - scrollTop - elements.messageList.clientHeight < 40;
        elements.messageList.replaceChildren();
        if (loading) {
          elements.messageList.appendChild(node("p", "card-meta", "正在载入这个 pane 的消息…"));
        } else if (!messages.length) {
          elements.messageList.appendChild(node("p", "card-meta", selectedPane ? "还没有消息" : "选择一个 pane"));
        }
        for (const record of messages) elements.messageList.appendChild(messageCard(record));
        elements.messageList.scrollTop = followLatest ? elements.messageList.scrollHeight : scrollTop;
        const runningSources = messages
          .filter((record) => record.kind === "command" && record.status === "running")
          .map((record) => record.source);
        const interferenceText = runningSources.length ? "命令执行中" : "";
        const interferenceTitle = [...new Set(runningSources)]
          .map((source) => source === "你" ? "你提交的命令正在执行" : `进程 ${source} 提交的命令正在执行`)
          .join("；");
        elements.messagesInterference.hidden = !interferenceText;
        elements.messagesInterference.textContent = interferenceText;
        elements.messagesInterference.title = interferenceTitle;
      }

"##;

/// Working directory, gate, and the tree of panes.
pub const SCRIPT_PANES: &'static str = r##"      function renderCwd(paneInfo) {
        const showCwd = Boolean(paneInfo?.id === selectedPane && isShellCommand(paneInfo.currentCommand));
        elements.messagesCwd.hidden = !showCwd;
        elements.messagesCwdPath.textContent = showCwd ? paneInfo.currentPath : "";
      }

      function renderAiPause(pause) {
        elements.aiPause.hidden = !pause;
        elements.aiPausePane.textContent = pause ? pause.paneId : "";
      }

      function renderGate(value) {
        elements.gateModes.dataset.mode = value;
        for (const button of elements.gateModes.querySelectorAll("button")) {
          const active = button.dataset.gateMode === value;
          button.setAttribute("aria-pressed", String(active));
        }
      }

      function selectPane(paneId) {
        if (selectedPane === paneId) return;
        selectedPane = paneId;
        elements.inputText.value = "";
        elements.inputHint.textContent = "输入已清空；Enter 或切换 pane 会结束当前输入记录";
        elements.terminal.textContent = "";
        renderMessages([], true);
        renderCwd(null);
        renderTopology(latestState?.topology, latestState?.activity || {});
        void refreshState();
      }

      function renderTopology(topology, activity) {
        elements.paneTree.replaceChildren();
        for (const session of topology?.sessions || []) {
          const sessionItem = node("li", "", session.session.name);
          const windows = node("ul");
          for (const entry of session.windows) {
            const windowItem = node("li", "", entry.window.name);
            const panes = node("ul");
            for (const pane of entry.panes) {
              const item = node("li");
              const seen = activity[pane.id] ? ` · ${new Date(activity[pane.id]).toLocaleTimeString()}` : "";
              const button = node("button", "pane-button", `${pane.id} ${pane.title}${seen}`);
              button.type = "button";
              button.setAttribute("aria-current", String(pane.id === selectedPane));
              button.addEventListener("click", () => selectPane(pane.id));
              item.appendChild(button);
              panes.appendChild(item);
            }
            windowItem.appendChild(panes);
            windows.appendChild(windowItem);
          }
          sessionItem.appendChild(windows);
          elements.paneTree.appendChild(sessionItem);
        }
      }

"##;

/// Approvals, the operation log, and the two modes of a pane.
pub const SCRIPT_APPROVAL: &'static str = r##"      function renderApproval(pending) {
        const record = pending?.find((item) => !decidedApprovalIds.has(item.id));
        shownApprovalId = record ? record.id : "";
        if (!record || decidingApprovalId || approvalCooldown) {
          const focused = document.activeElement;
          if (focused && elements.approval.contains(focused)) focused.blur();
          elements.approval.hidden = true;
          return;
        }
        elements.approvalTitle.textContent = `${record.source} 请求 ${record.tool}`;
        elements.approvalArguments.textContent = JSON.stringify(record.arguments, null, 2);
        elements.approval.hidden = false;
      }

      function renderOperations() {
        const records = operationLogMode === "full" ? latestState?.fullLog : latestState?.operations;
        elements.logList.replaceChildren();
        for (const record of records || []) {
          const when = new Date(record.requestedAtMs).toLocaleString();
          elements.logList.appendChild(node("p", "card-meta", `${when} · ${record.source} · ${record.tool} · ${record.status}`));
        }
      }

      function setLogMode(value) {
        operationLogMode = value;
        elements.logCritical.setAttribute("aria-pressed", String(value === "critical"));
        elements.logFull.setAttribute("aria-pressed", String(value === "full"));
        renderOperations();
      }

      function setMode(value) {
        mode = value;
        elements.messagesView.hidden = value !== "messages";
        elements.interactiveView.hidden = value !== "interactive";
        elements.modeMessages.setAttribute("aria-pressed", String(value === "messages"));
        elements.modeInteractive.setAttribute("aria-pressed", String(value === "interactive"));
        if (value === "interactive") void refreshCapture();
      }

      async function decideApproval(approved) {
        const id = shownApprovalId;
        if (!id || decidingApprovalId || approvalCooldown) return;
        decidingApprovalId = id;
        approvalCooldown = true;
        renderApproval(latestState?.pending || []);
        try {
          await api(`/api/approvals/${encodeURIComponent(id)}`, { method: "PUT", body: { approved } });
          decidedApprovalIds.add(id);
          if (latestState) {
            latestState.pending = (latestState.pending || []).filter((record) => record.id !== id);
          }
        } catch (error) {
          showStatus(error.message);
        } finally {
          decidingApprovalId = "";
          setTimeout(() => {
            approvalCooldown = false;
            renderApproval(latestState?.pending || []);
          }, 600);
          void refreshState();
        }
      }

"##;

/// Polling of state and captures.
pub const SCRIPT_REFRESH: &'static str = r##"      async function refreshState() {
        if (stateRefreshing) {
          stateRefreshQueued = true;
          return;
        }
        stateRefreshing = true;
        const requestedPane = selectedPane;
        try {
          const query = requestedPane ? `?paneId=${encodeURIComponent(requestedPane)}` : "";
          const state = await api(`/api/state${query}`);
          latestState = state;
          showStatus(state.topologyError || "");
          renderGate(state.gateMode);
          renderTopology(state.topology, state.activity || {});
          renderApproval(state.pending || []);
          renderAiPause(state.aiPause);
          renderOperations();
          if (requestedPane === selectedPane) {
            renderMessages(state.messages || []);
            renderCwd(state.paneInfo);
          } else {
            renderMessages([], true);
          }
        } catch (error) {
          showStatus(error.message);
        } finally {
          stateRefreshing = false;
          if (stateRefreshQueued) {
            stateRefreshQueued = false;
            void refreshState();
          }
        }
      }

      async function refreshCapture() {
        if (capturing || mode !== "interactive" || !selectedPane) return;
        capturing = true;
        const paneId = selectedPane;
        try {
          const capture = await api(`/api/panes/${encodeURIComponent(paneId)}/capture`);
          if (mode === "interactive" && selectedPane === paneId) elements.terminal.textContent = capture.text;
        } catch (error) {
          if (mode === "interactive" && selectedPane === paneId) elements.terminal.textContent = error.message;
        } finally {
          capturing = false;
        }
      }

"##;

/// Keys and commands.
pub const SCRIPT_COMMANDS: &'static str = r##"      function sendKey(key, literal) {
        const paneId = selectedPane;
        if (!paneId) return Promise.resolve();
        return api(`/api/panes/${encodeURIComponent(paneId)}/keys`, { method: "POST", body: { key, literal } })
          .then(() => refreshCapture())
          .catch((error) => showStatus(error.message));
      }

      async function sendCommand(event) {
        event.preventDefault();
        const paneId = selectedPane;
        const command = elements.commandInput.value;
        elements.commandError.hidden = true;
        if (!paneId || !command.trim()) return;
        if (command.includes("\r") || command.includes("\n")) {
          elements.commandError.textContent = "命令必须是一行";
          elements.commandError.hidden = false;
          return;
        }
        elements.commandSend.disabled = true;
        try {
          await api(`/api/panes/${encodeURIComponent(paneId)}/commands`, { method: "POST", body: { command } });
          elements.commandInput.value = "";
        } catch (error) {
          elements.commandError.textContent = error.message;
          elements.commandError.hidden = false;
        } finally {
          elements.commandSend.disabled = false;
          if (mode === "messages") elements.commandInput.focus();
          void refreshState();
        }
      }

"##;

/// Event handlers.
pub const SCRIPT_EVENTS: &'static str = r##"      elements.composer.addEventListener("submit", sendCommand);
      elements.commandInput.addEventListener("keydown", (event) => {
        if (event.key === "Enter" && !event.isComposing) {
          event.preventDefault();
          elements.composer.requestSubmit();
        }
      });
      elements.approvalApprove.addEventListener("click", () => void decideApproval(true));
      elements.approvalReject.addEventListener("click", () => void decideApproval(false));
      elements.aiPauseClear.addEventListener("click", () => {
        api("/api/ai-pause/clear", { method: "POST", body: {} })
          .then(() => refreshState())
          .catch((error) => showStatus(error.message));
      });
      for (const button of elements.gateModes.querySelectorAll("button")) {
        button.addEventListener("click", () => {
          api("/api/gate", { method: "PUT", body: { mode: button.dataset.gateMode } })
            .then(() => refreshState())
            .catch((error) => showStatus(error.message));
        });
      }
      elements.modeMessages.addEventListener("click", () => setMode("messages"));
      elements.modeInteractive.addEventListener("click", () => setMode("interactive"));
      elements.logOpen.addEventListener("click", () => elements.log.showModal());
      elements.logClose.addEventListener("click", () => elements.log.close());
      elements.logCritical.addEventListener("click", () => setLogMode("critical"));
      elements.logFull.addEventListener("click", () => setLogMode("full"));
      for (const key of SPECIAL_KEYS) {
        const button = node("button", "", key);
        button.type = "button";
        button.addEventListener("click", () => void sendKey(key, false));
        elements.keyRow.appendChild(button);
      }
      elements.inputForm.addEventListener("submit", (event) => {
        event.preventDefault();
        const text = elements.inputText.value;
        elements.inputText.value = "";
        if (text) void sendKey(text, true);
      });
      setInterval(() => void refreshState(), STATE_INTERVAL_MS);
      setInterval(() => void refreshCapture(), CAPTURE_INTERVAL_MS);
      renderMessages([]);
      void refreshState();
    </script>
  </body>
</html>
"##;

/// The whole page, with a placeholder for the control token.
pub open spec fn page_text() -> Seq<char> {
    STYLE_BASE@ + STYLE_MESSAGES@ + BODY_MARKUP@ + SCRIPT_SETUP@ + SCRIPT_RENDER@ + SCRIPT_CARDS@ + SCRIPT_PANES@ + SCRIPT_APPROVAL@ + SCRIPT_REFRESH@ + SCRIPT_COMMANDS@ + SCRIPT_EVENTS@
}

/// The whole page, with a placeholder for the control token.
pub fn page() -> (r: String)
    ensures
        r@ == page_text(),
{
    let mut out = STYLE_BASE.to_owned();
    out.append(STYLE_MESSAGES);
    out.append(BODY_MARKUP);
    out.append(SCRIPT_SETUP);
    out.append(SCRIPT_RENDER);
    out.append(SCRIPT_CARDS);
    out.append(SCRIPT_PANES);
    out.append(SCRIPT_APPROVAL);
    out.append(SCRIPT_REFRESH);
    out.append(SCRIPT_COMMANDS);
    out.append(SCRIPT_EVENTS);
    out
}

/// The page with the control token filled in.
pub fn index_page(token: &str) -> (r: String)
    ensures
        r@ == replaced(page_text(), "__TMUX_CONTROL_TOKEN__"@, token@),
{
    render_index(page().as_str(), token)
}

} // verus!
