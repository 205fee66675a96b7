//! The page script that the launcher registers in the app's renderer. It turns on
//! the app's own Chinese resources through its feature-flag client, asks the app's
//! settings bridge once for the Chinese locale, checks the rendered interface,
//! reports its progress in `globalThis.__ITOC_ZH_PREVIEW__`, and adds a button
//! that asks the launcher to open Windows voice typing.
use vstd::prelude::*;

verus! {

/// The script, run both before each new document and once in the current one.
pub const INJECTION_SCRIPT: &'static str = r##"(() => {
  "use strict";
  const LOCALE = "zh-CN";
  const SETTING_KEY = "locale";
  const VOICE_BINDING = "__itocVoiceTyping";
  const RELOAD_MARKER = "__itocZhPreviewReload";
  const RELOAD_TOKEN = "zh-CN:requested";
  const UI_MARKERS = {
    zh: ["新聊天", "搜索聊天", "设置", "发送消息"],
    en: ["New chat", "Search chats", "Settings", "Send message"],
  };

  if (globalThis.__ITOC_ZH_PREVIEW__) {
    return;
  }
  const state = {
    locale: LOCALE,
    bridgeAvailable: false,
    settingStatus: "pending",
    settingError: null,
    patchedClients: 0,
    uiLocaleStatus: "unknown",
  };
  Object.defineProperty(globalThis, "__ITOC_ZH_PREVIEW__", { value: state, configurable: false });

  const withI18n = (result) => {
    if (!result || typeof result !== "object") {
      return result;
    }
    const value = Object.assign({}, result.value, { enable_i18n: true });
    return new Proxy(result, {
      get(target, key, receiver) {
        if (key === "value") {
          return value;
        }
        if (key === "get") {
          return (name, fallback) => (name === "enable_i18n" ? true : target.get?.(name, fallback));
        }
        return Reflect.get(target, key, receiver);
      },
    });
  };

  const patchAccessor = (client, name) => {
    const original = client?.[name];
    if (typeof original !== "function" || original.__itocPatched) {
      return false;
    }
    const patched = function (...args) {
      return withI18n(original.apply(this, args));
    };
    patched.__itocPatched = true;
    client[name] = patched;
    return true;
  };

  const patchClient = (client) => {
    const a = patchAccessor(client, "getDynamicConfig");
    const b = patchAccessor(client, "getLayer");
    if (a || b) {
      state.patchedClients += 1;
    }
  };

  const patchStatsig = (statsig) => {
    if (!statsig || typeof statsig !== "object") {
      return;
    }
    patchClient(statsig);
    patchClient(statsig.firstInstance);
    for (const client of Object.values(statsig.instances || {})) {
      patchClient(client);
    }
  };

  let statsigValue = globalThis.__STATSIG__;
  patchStatsig(statsigValue);
  try {
    Object.defineProperty(globalThis, "__STATSIG__", {
      configurable: true,
      get() {
        return statsigValue;
      },
      set(next) {
        statsigValue = next;
        patchStatsig(next);
      },
    });
  } catch (error) {
    state.settingError = "statsig hook: " + String(error?.message || error);
  }
  const statsigTimer = setInterval(() => patchStatsig(statsigValue), 250);
  setTimeout(() => clearInterval(statsigTimer), 30000);

  const callSettingApi = async (method, params) => {
    const response = await fetch(`vscode://codex/${method}`, {
      method: "POST",
      headers: { "Content-Type": "application/json" },
      body: JSON.stringify(params),
    });
    if (!response.ok) {
      throw new Error(method + " returned " + response.status);
    }
    state.bridgeAvailable = true;
    return response.json();
  };

  const visibleText = () => (document.body ? document.body.innerText || "" : "");

  const renderedLocaleStatus = () => {
    const text = visibleText();
    if (UI_MARKERS.zh.some((marker) => text.includes(marker))) {
      return "zh";
    }
    if (UI_MARKERS.en.some((marker) => text.includes(marker))) {
      return "en";
    }
    return "unknown";
  };

  const requestReloadOrFail = (reason) => {
    if (sessionStorage.getItem(RELOAD_MARKER) === RELOAD_TOKEN) {
      state.settingStatus = "failed";
      state.settingError = reason;
      return;
    }
    sessionStorage.setItem(RELOAD_MARKER, RELOAD_TOKEN);
    state.settingStatus = "reload-required";
  };

  const verifyRenderedLocale = () => {
    state.settingStatus = "verifying-ui";
    const startedAt = Date.now();
    const check = () => {
      const status = renderedLocaleStatus();
      state.uiLocaleStatus = status;
      if (status === "zh") {
        state.settingStatus = "ready";
        return;
      }
      if (Date.now() - startedAt >= 12000) {
        requestReloadOrFail("interface still shows " + status);
        return;
      }
      setTimeout(check, 250);
    };
    check();
  };

  const syncLocale = async () => {
    if (location.protocol !== "app:") {
      state.settingStatus = "bridge-unavailable";
      return;
    }
    const startedAt = Date.now();
    let current = null;
    while (current === null) {
      try {
        current = await callSettingApi("get-setting", { key: SETTING_KEY });
      } catch (error) {
        if (Date.now() - startedAt >= 8000) {
          state.settingStatus = "failed";
          state.settingError = String(error?.message || error);
          return;
        }
        await new Promise((resolve) => setTimeout(resolve, 400));
      }
    }
    if (current?.value === LOCALE) {
      verifyRenderedLocale();
      return;
    }
    try {
      await callSettingApi("set-setting", { key: SETTING_KEY, value: LOCALE });
    } catch (error) {
      state.settingStatus = "failed";
      state.settingError = String(error?.message || error);
      return;
    }
    requestReloadOrFail("locale written");
  };

  const addVoiceTypingButton = () => {
    if (document.getElementById("itoc-voice-typing-button")) {
      return;
    }
    const composer = document.querySelector("form textarea, form [contenteditable='true']");
    const form = composer?.closest("form");
    if (!form) {
      return;
    }
    const button = document.createElement("button");
    button.id = "itoc-voice-typing-button";
    button.type = "button";
    button.title = "Windows 语音输入（Win+H）";
    button.setAttribute("aria-label", "Windows 语音输入（Win+H）");
    button.textContent = "🎤";
    button.style.cssText = "margin:0 4px;padding:0 6px;border:0;background:transparent;cursor:pointer;";
    button.addEventListener("click", (event) => {
      event.preventDefault();
      composer.focus();
      const binding = globalThis[VOICE_BINDING];
      if (typeof binding === "function") {
        binding("request");
      }
    });
    form.appendChild(button);
  };

  const whenReady = (run) => {
    if (document.readyState === "loading") {
      document.addEventListener("DOMContentLoaded", run, { once: true });
    } else {
      run();
    }
  };

  whenReady(() => {
    addVoiceTypingButton();
    new MutationObserver(addVoiceTypingButton).observe(document.documentElement, {
      childList: true,
      subtree: true,
    });
    syncLocale().catch((error) => {
      state.settingStatus = "failed";
      state.settingError = String(error?.message || error);
    });
  });
})();
"##;

} // verus!
