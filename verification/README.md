# roast

Host a program (a game server, say) behind a small authenticated web
console.  `src/` is the verified library: sessions and cookie tokens
(`auth`, `token`), the console state machine (`command`), text helpers for
trimming and page templates (`text`), the settings (`config`) and what each
page answers (`website`).  `app/` is the program around it: the rocket
routes, the hosted process with its reader threads, the command line and
the configuration file.

The pages' HTML templates are read at run time from `dist/`.
