# yoakore

Building blocks for LLM agents: a tool-use loop, teams of agents that ask each other
questions, plans of dependent subtasks, rate limiting per provider endpoint, tool
approval, context management, memories, skills and usage accounting.

`src/` holds the decisions and text formats of all of these, written in Verus with their
contracts proved. Where work needs the network, the file system, the clock or an async
runtime, the library hands the caller an action and takes back its outcome; `app/`
holds that runtime (HTTP streaming, configuration files, async drivers, hooks that do
I/O). `tests/` exercises the library through its public interface.
