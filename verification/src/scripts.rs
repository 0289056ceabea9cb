//! The JavaScript that the Inspector calls run in the Antigravity extension host.

use vstd::prelude::*;

verus! {

/// Evaluated in the extension host: finds the live `CodexMcpConnection` through the module cache
/// and the globals.
pub const CODEX_INSTANCE_EXPRESSION: &'static str = r#"(() => {
  const findModuleBuiltin = () => {
    const p = globalThis.vscode?.process ?? globalThis.process;
    // Strategy 1: Electron getBuiltinModule (works in extension host context)
    if (p?.getBuiltinModule) {
      const m = p.getBuiltinModule('module');
      if (m?.createRequire) return { module: m, source: 'getBuiltinModule' };
    }
    // Strategy 2: require in global scope (Node.js / Electron context)
    try {
      const r = typeof require !== 'undefined' ? require : (globalThis.require ?? false);
      if (r && typeof r.resolve === 'function' && r.cache) {
        return { module: r, source: 'require' };
      }
    } catch {}
    // Strategy 3: process.mainModule.require (deprecated Electron, sometimes works)
    try {
      if (p?.mainModule?.require && typeof p.mainModule.require.resolve === 'function') {
        return { module: p.mainModule.require, source: 'mainModule' };
      }
    } catch {}
    return null;
  };

  const builtin = findModuleBuiltin();
  if (builtin) {
    // Build require.cache walk from the acquired module API
    const createRequireFromModule = (moduleApi) => {
      if (moduleApi?.cache) return moduleApi;
      const anchors = [
        'D:/Antigravity/resources/app/out/vs/workbench/api/node/extensionHostProcess.js',
        'D:/Antigravity/resources/app/out/main.js',
        'file:///d:/Antigravity/resources/app/out/vs/workbench/api/node/extensionHostProcess.js'
      ];
      for (const anchor of anchors) {
        try {
          const req = moduleApi?.createRequire?.(anchor);
          if (req?.cache) return req;
        } catch {}
      }
      return null;
    };
    const req = builtin.source === 'require' ? builtin.module : createRequireFromModule(builtin.module);
    if (!req?.cache) throw new Error('Node require cache is unavailable');
    const cache = req.cache || {};
    const modulePriority = (key) => {
      const lower = String(key).toLowerCase();
      if (lower.includes('openai.chatgpt-') && lower.endsWith('extension.js')) return 3;
      if (lower.includes('chatgpt') || lower.includes('codex')) return 2;
      return lower.endsWith('extension.js') ? 1 : 0;
    };
    const moduleEntries = Object.entries(cache).filter(([, mod]) => Boolean(mod));
    const modules = moduleEntries
      .sort(([left], [right]) => modulePriority(right) - modulePriority(left))
      .map(([, mod]) => mod);
    if (modules.length > 0) {
      const visitedValues = new WeakSet();
      const visitedModules = new Set();
      const valuesOf = (value) => { try { return Object.values(value); } catch { return []; } };
      const isCandidate = (value) => {
        if (!value || (typeof value !== 'object' && typeof value !== 'function')) return false;
        if (typeof value.sendRequest !== 'function') return false;
        const providers = value.providers;
        if (!providers || typeof providers.get !== 'function') return false;
        return value.initialized === true;
      };
      const walkValue = (value, depth) => {
        if (!value || (typeof value !== 'object' && typeof value !== 'function')) return null;
        if (visitedValues.has(value)) return null;
        visitedValues.add(value);
        if (isCandidate(value)) return value;
        if (depth <= 0) return null;
        for (const child of valuesOf(value)) { const f = walkValue(child, depth - 1); if (f) return f; }
        return null;
      };
      const walkModule = (mod, depth) => {
        if (!mod || visitedModules.has(mod)) return null;
        visitedModules.add(mod);
        for (const exported of [mod.exports, mod.exports?.default]) { const f = walkValue(exported, depth); if (f) return f; }
        if (depth <= 0) return null;
        for (const child of mod.children || []) { const f = walkModule(child, depth - 1); if (f) return f; }
        return null;
      };
      for (const mod of modules) { const f = walkModule(mod, 4); if (f) return f; }
    }
  }

  // Renderer-context fallback: walk globalThis and vscode API to find CodexMcpConnection
  const walkGlobal = (root, maxDepth) => {
    const visited = new WeakSet();
    const deeper = (v, d) => {
      if (!v || (typeof v !== 'object' && typeof v !== 'function')) return null;
      if (visited.has(v)) return null;
      visited.add(v);
      if (typeof v.sendRequest === 'function' && v.providers && typeof v.providers.get === 'function' && v.initialized === true) return v;
      if (d <= 0) return null;
      try { for (const child of Object.values(v)) { const f = deeper(child, d - 1); if (f) return f; } } catch {}
      return null;
    };
    return deeper(root, maxDepth);
  };
  const fromGlobal = walkGlobal(globalThis, 5);
  if (fromGlobal) return fromGlobal;
  // Walk vscode extensions if available
  const vscodeApi = globalThis.vscode;
  if (vscodeApi?.extensions) {
    try {
      const exts = vscodeApi.extensions.all || [];
      for (const ext of exts) { const f = walkGlobal(ext, 4); if (f) return f; }
    } catch {}
  }
  // Walk chrome/webview known extension iframes
  try {
    if (globalThis.document?.querySelectorAll) {
      for (const frame of globalThis.document.querySelectorAll('webview, iframe')) { const f = walkGlobal(frame.contentWindow, 3); if (f) return f; }
    }
  } catch {}

  throw new Error(
    'CodexMcpConnection instance is not loaded' +
    (builtin ? '; require.cache walk exhausted' : '; Electron built-in module API is unavailable')
  );
})()"#;

/// Evaluated in the extension host: the `activate` export of the Codex extension.
pub const ACTIVATE_FUNCTION_EXPRESSION: &'static str = r#"(() => {
  const findModuleBuiltin = () => {
    const p = globalThis.vscode?.process ?? globalThis.process;
    if (p?.getBuiltinModule) {
      const m = p.getBuiltinModule('module');
      if (m?.createRequire) return m;
    }
    try {
      const r = typeof require !== 'undefined' ? require : (globalThis.require ?? false);
      if (r && typeof r.resolve === 'function' && r.cache) return r;
    } catch {}
    try {
      if (p?.mainModule?.require && typeof p.mainModule.require.resolve === 'function') return p.mainModule.require;
    } catch {}
    return null;
  };

  const mod = findModuleBuiltin();
  if (!mod) throw new Error('Electron built-in module API is unavailable');

  const createRequireFromModule = (moduleApi) => {
    if (moduleApi?.cache) return moduleApi;
    const anchors = [
      'D:/Antigravity/resources/app/out/vs/workbench/api/node/extensionHostProcess.js',
      'D:/Antigravity/resources/app/out/main.js',
      'file:///d:/Antigravity/resources/app/out/vs/workbench/api/node/extensionHostProcess.js'
    ];
    for (const anchor of anchors) {
      try {
        const req = moduleApi?.createRequire?.(anchor);
        if (req?.cache) return req;
      } catch {}
    }
    return null;
  };
  const req = typeof mod.cache !== 'undefined' ? mod : createRequireFromModule(mod);
  if (!req?.cache) throw new Error('Node require cache is unavailable');
  const cache = req.cache || {};
  const modulePriority = (key) => {
    const lower = String(key).toLowerCase();
    if (lower.includes('openai.chatgpt-') && lower.endsWith('extension.js')) return 3;
    if (lower.includes('chatgpt') || lower.includes('codex')) return 2;
    return lower.endsWith('extension.js') ? 1 : 0;
  };
  const moduleEntries = Object.entries(cache)
    .filter(([, mod]) => Boolean(mod))
    .sort(([left], [right]) => modulePriority(right) - modulePriority(left));
  if (moduleEntries.length === 0) throw new Error('Node module cache is empty');
  const exportCandidates = moduleEntries.flatMap(([key, mod]) => {
    const priority = modulePriority(key);
    const exports = cache[key]?.exports;
    const candidates = [exports?.activate, exports?.default?.activate];
    if (priority > 0) candidates.push(exports?.default, exports);
    return candidates;
  });
  const activate = exportCandidates.find((candidate) => typeof candidate === 'function');
  if (!activate) throw new Error(
    'Codex extension activate export is unavailable; moduleCacheSize=' + moduleEntries.length +
    '; prioritizedModules=' + moduleEntries.filter(([key]) => modulePriority(key) > 0).length
  );
  return activate;
})()"#;

/// Called on an array of heap arrays: the first element that looks like a `CodexMcpConnection`.
pub const FIND_CODEX_INSTANCE_IN_ARRAYS_FUNCTION: &'static str = r#"function() {
  const isCandidate = (value) => {
    if (!value || (typeof value !== 'object' && typeof value !== 'function')) return false;
    if (typeof value.sendRequest !== 'function') return false;
    const providers = value.providers;
    if (!providers || typeof providers.get !== 'function') return false;
    try {
      if (typeof providers.has === 'function' && !providers.has('auth')) return false;
    } catch {}
    return true;
  };

  const scanValue = (value, depth, seen) => {
    if (isCandidate(value)) return value;
    if (!value || depth <= 0 || (typeof value !== 'object' && typeof value !== 'function')) return null;
    if (seen.has(value)) return null;
    seen.add(value);
    try {
      const directNames = ['_value', 'value', 'item', 'connection', 'client', 'disposable'];
      for (const name of directNames) {
        const found = scanValue(value[name], depth - 1, seen);
        if (found) return found;
      }
    } catch {}
    return null;
  };

  const seen = new WeakSet();
  let inspectedArrays = 0;
  let inspectedValues = 0;
  for (const array of this) {
    inspectedArrays += 1;
    if (!Array.isArray(array) || array.length === 0 || array.length > 5000) continue;
    for (let index = 0; index < array.length; index += 1) {
      inspectedValues += 1;
      const found = scanValue(array[index], 2, seen);
      if (found) return found;
      if (inspectedValues > 250000) return null;
    }
  }
  return null;
}"#;

/// Called on the `CodexMcpConnection`: switches its account to the payload's and reports the
/// outcome.
pub const HOT_SWITCH_FUNCTION: &'static str = r#"async function(payload) {
  if (!this.initialized) {
    throw new Error('Codex app-server is not initialized');
  }

  const originalProvider = this.providers.get('auth');
  if (!originalProvider) {
    throw new Error('Original auth provider not found');
  }

  const originalOnResult = originalProvider.onResult;
  const originalOnNotification = originalProvider.onNotification;

  const pending = new Map();
  const notifications = [];
  let nextId = Math.floor(Math.random() * 1000000) + 1;

  try {
    // 劫持原始 provider
    originalProvider.onResult = (message) => {
      const key = String(message.id);
      const waiter = pending.get(key);
      if (waiter) {
        pending.delete(key);
        if (message.error) {
          const errorText = typeof message.error === 'string'
            ? message.error
            : JSON.stringify(message.error);
          waiter.reject(new Error(errorText));
        } else {
          waiter.resolve(message.result ?? null);
        }
      } else {
        if (typeof originalOnResult === 'function') {
          try { originalOnResult(message); } catch {}
        }
      }
    };

    originalProvider.onNotification = (message) => {
      notifications.push({ method: message.method, params: message.params });
      if (typeof originalOnNotification === 'function') {
        try { originalOnNotification(message); } catch {}
      }
    };

    const request = (method, params, timeoutMs = 8000) => new Promise((resolve, reject) => {
      const id = nextId++;
      const idStr = String(id);
      const timer = setTimeout(() => {
        pending.delete(idStr);
        reject(new Error(`${method} timeout`));
      }, timeoutMs);
      pending.set(idStr, {
        resolve: (value) => {
          clearTimeout(timer);
          resolve(value);
        },
        reject: (error) => {
          clearTimeout(timer);
          reject(error);
        }
      });
      this.sendRequest('auth', id, method, params);
    });

    const waitForLoginSettle = () => new Promise((resolve, reject) => {
      const startedAt = Date.now();
      const tick = () => {
        const notification = notifications.find((item) =>
          item.method === 'account/login/completed' || item.method === 'account/updated'
        );
        if (notification) {
          if (
            notification.method === 'account/login/completed' &&
            notification.params &&
            notification.params.success === false
          ) {
            reject(new Error(notification.params.error || 'account/login/completed failed'));
          } else {
            resolve(notification);
          }
          return;
        }
        if (Date.now() - startedAt > 2000) {
          resolve(null);
          return;
        }
        setTimeout(tick, 50);
      };
      tick();
    });

    await request('account/login/start', {
      type: 'chatgptAuthTokens',
      accessToken: payload.accessToken,
      chatgptAccountId: payload.chatgptAccountId,
      chatgptPlanType: payload.chatgptPlanType ?? null
    });
    await waitForLoginSettle();

    const accountRead = await request('account/read', { refresh: false });
    const actualEmail = accountRead?.account?.email || '';
    if (actualEmail.toLowerCase() !== String(payload.expectedEmail).toLowerCase()) {
      throw new Error(`runtime account mismatch: ${actualEmail} != ${payload.expectedEmail}`);
    }

    let rateLimits = null;
    let rateLimitsError = null;
    try {
      rateLimits = await request('account/rateLimits/read', {});
    } catch (error) {
      rateLimitsError = String(error?.message || error);
    }

    return {
      ok: true,
      accountRead,
      rateLimits,
      rateLimitsError
    };

  } finally {
    // 恢复原始提供者
    originalProvider.onResult = originalOnResult;
    originalProvider.onNotification = originalOnNotification;
  }
}"#;

/// Called on an object: whether it looks like a `CodexMcpConnection`.
pub const IS_CODEX_MCP_INSTANCE_FUNCTION: &'static str = "function() { return Boolean(this && typeof this.sendRequest === 'function' && this.providers && typeof this.providers.get === 'function'); }";

} // verus!
