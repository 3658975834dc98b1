//! The text of the standard FIGlet font ("Standard" by Glenn Chappell and
//! Ian Chai), the font that `FIGfont::standard` parses, in parts of a few
//! dozen lines each.
use vstd::prelude::*;

verus! {

pub const PART_00: &'static str = r#"flf2a$ 6 5 16 15 11 0 24463
Standard by Glenn Chappell & Ian Chai 3/93 -- based on Frank's .sig
Includes ISO Latin-1
figlet release 2.1 -- 12 Aug 1994
Modified for figlet 2.2 by John Cowan <cowan@ccil.org>
  to add Latin-{2,3,4,5} support (Unicode U+0100-017F).
Permission is hereby given to modify this font, as long as the
modifier's name is placed on a comment line.

Modified by Paul Burton <solution@earthlink.net> 12/96 to include new parameter
supported by FIGlet and FIGWin.  May also be slightly modified for better use
of new full-width/kern/smush alternatives, but default output is NOT changed.
 $@
 $@
 $@
 $@
 $@
 $@@
  _ @
 | |@
 | |@
 |_|@
 (_)@
    @@
  _ _ @
 ( | )@
  V V @
   $  @
   $  @
      @@
    _  _   @
  _| || |_ @
 |_  ..  _|@
 |_      _|@
   |_||_|  @
           @@
   _  @
  | | @
 / __)@
 \__ \@
 (   /@
  |_| @@
  _  __@
 (_)/ /@
   / / @
  / /_ @
 /_/(_)@
       @@
   ___   @
  ( _ )  @
  / _ \/\@
 | (_>  <@
  \___/\/@
         @@
  _ @
 ( )@
 |/ @
  $ @
  $ @
    @@
"#;

pub const PART_01: &'static str = r#"   __@
  / /@
 | | @
 | | @
 | | @
  \_\@@
 __  @
 \ \ @
  | |@
  | |@
  | |@
 /_/ @@
       @
 __/\__@
 \    /@
 /_  _\@
   \/  @
       @@
        @
    _   @
  _| |_ @
 |_   _|@
   |_|  @
        @@
    @
    @
    @
  _ @
 ( )@
 |/ @@
        @
        @
  _____ @
 |_____|@
    $   @
        @@
    @
    @
    @
  _ @
 (_)@
    @@
     __@
    / /@
   / / @
  / /  @
 /_/   @
       @@
   ___  @
  / _ \ @
 | | | |@
 | |_| |@
  \___/ @
        @@
  _ @
 / |@
 | |@
 | |@
 |_|@
    @@
"#;

pub const PART_02: &'static str = r#"  ____  @
 |___ \ @
   __) |@
  / __/ @
 |_____|@
        @@
  _____ @
 |___ / @
   |_ \ @
  ___) |@
 |____/ @
        @@
  _  _   @
 | || |  @
 | || |_ @
 |__   _|@
    |_|  @
         @@
  ____  @
 | ___| @
 |___ \ @
  ___) |@
 |____/ @
        @@
   __   @
  / /_  @
 | '_ \ @
 | (_) |@
  \___/ @
        @@
  _____ @
 |___  |@
    / / @
   / /  @
  /_/   @
        @@
   ___  @
  ( _ ) @
  / _ \ @
 | (_) |@
  \___/ @
        @@
   ___  @
  / _ \ @
 | (_) |@
  \__, |@
    /_/ @
        @@
    @
  _ @
 (_)@
  _ @
 (_)@
    @@
    @
  _ @
 (_)@
  _ @
 ( )@
 |/ @@
"#;

pub const PART_03: &'static str = r#"   __@
  / /@
 / / @
 \ \ @
  \_\@
     @@
        @
  _____ @
 |_____|@
 |_____|@
    $   @
        @@
 __  @
 \ \ @
  \ \@
  / /@
 /_/ @
     @@
  ___ @
 |__ \@
   / /@
  |_| @
  (_) @
      @@
    ____  @
   / __ \ @
  / / _` |@
 | | (_| |@
  \ \__,_|@
   \____/ @@
     _    @
    / \   @
   / _ \  @
  / ___ \ @
 /_/   \_\@
          @@
  ____  @
 | __ ) @
 |  _ \ @
 | |_) |@
 |____/ @
        @@
   ____ @
  / ___|@
 | |    @
 | |___ @
  \____|@
        @@
  ____  @
 |  _ \ @
 | | | |@
 | |_| |@
 |____/ @
        @@
  _____ @
 | ____|@
 |  _|  @
 | |___ @
 |_____|@
        @@
"#;

pub const PART_04: &'static str = r#"  _____ @
 |  ___|@
 | |_   @
 |  _|  @
 |_|    @
        @@
   ____ @
  / ___|@
 | |  _ @
 | |_| |@
  \____|@
        @@
  _   _ @
 | | | |@
 | |_| |@
 |  _  |@
 |_| |_|@
        @@
  ___ @
 |_ _|@
  | | @
  | | @
 |___|@
      @@
      _ @
     | |@
  _  | |@
 | |_| |@
  \___/ @
        @@
  _  __@
 | |/ /@
 | ' / @
 | . \ @
 |_|\_\@
       @@
  _     @
 | |    @
 | |    @
 | |___ @
 |_____|@
        @@
  __  __ @
 |  \/  |@
 | |\/| |@
 | |  | |@
 |_|  |_|@
         @@
  _   _ @
 | \ | |@
 |  \| |@
 | |\  |@
 |_| \_|@
        @@
   ___  @
  / _ \ @
 | | | |@
 | |_| |@
  \___/ @
        @@
"#;

pub const PART_05: &'static str = r#"  ____  @
 |  _ \ @
 | |_) |@
 |  __/ @
 |_|    @
        @@
   ___  @
  / _ \ @
 | | | |@
 | |_| |@
  \__\_\@
        @@
  ____  @
 |  _ \ @
 | |_) |@
 |  _ < @
 |_| \_\@
        @@
  ____  @
 / ___| @
 \___ \ @
  ___) |@
 |____/ @
        @@
  _____ @
 |_   _|@
   | |  @
   | |  @
   |_|  @
        @@
  _   _ @
 | | | |@
 | | | |@
 | |_| |@
  \___/ @
        @@
 __     __@
 \ \   / /@
  \ \ / / @
   \ V /  @
    \_/   @
          @@
 __        __@
 \ \      / /@
  \ \ /\ / / @
   \ V  V /  @
    \_/\_/   @
             @@
 __  __@
 \ \/ /@
  \  / @
  /  \ @
 /_/\_\@
       @@
 __   __@
 \ \ / /@
  \ V / @
   | |  @
   |_|  @
        @@
"#;

pub const PART_06: &'static str = r#"  _____@
 |__  /@
   / / @
  / /_ @
 /____|@
       @@
  __ @
 | _|@
 | | @
 | | @
 | | @
 |__|@@
 __    @
 \ \   @
  \ \  @
   \ \ @
    \_\@
       @@
  __ @
 |_ |@
  | |@
  | |@
  | |@
 |__|@@
  /\ @
 |/\|@
   $ @
   $ @
   $ @
     @@
        @
        @
        @
        @
  _____ @
 |_____|@@
  _ @
 ( )@
  \|@
  $ @
  $ @
    @@
        @
   __ _ @
  / _` |@
 | (_| |@
  \__,_|@
        @@
  _     @
 | |__  @
 | '_ \ @
 | |_) |@
 |_.__/ @
        @@
       @
   ___ @
  / __|@
 | (__ @
  \___|@
       @@
"#;

pub const PART_07: &'static str = r#"      _ @
   __| |@
  / _` |@
 | (_| |@
  \__,_|@
        @@
       @
   ___ @
  / _ \@
 |  __/@
  \___|@
       @@
   __ @
  / _|@
 | |_ @
 |  _|@
 |_|  @
      @@
        @
   __ _ @
  / _` |@
 | (_| |@
  \__, |@
  |___/ @@
  _     @
 | |__  @
 | '_ \ @
 | | | |@
 |_| |_|@
        @@
  _ @
 (_)@
 | |@
 | |@
 |_|@
    @@
    _ @
   (_)@
   | |@
   | |@
  _/ |@
 |__/ @@
  _    @
 | | __@
 | |/ /@
 |   < @
 |_|\_\@
       @@
  _ @
 | |@
 | |@
 | |@
 |_|@
    @@
            @
  _ __ ___  @
 | '_ ` _ \ @
 | | | | | |@
 |_| |_| |_|@
            @@
"#;

pub const PART_08: &'static str = r#"        @
  _ __  @
 | '_ \ @
 | | | |@
 |_| |_|@
        @@
        @
   ___  @
  / _ \ @
 | (_) |@
  \___/ @
        @@
        @
  _ __  @
 | '_ \ @
 | |_) |@
 | .__/ @
 |_|    @@
        @
   __ _ @
  / _` |@
 | (_| |@
  \__, |@
     |_|@@
       @
  _ __ @
 | '__|@
 | |   @
 |_|   @
       @@
      @
  ___ @
 / __|@
 \__ \@
 |___/@
      @@
  _   @
 | |_ @
 | __|@
 | |_ @
  \__|@
      @@
        @
  _   _ @
 | | | |@
 | |_| |@
  \__,_|@
        @@
        @
 __   __@
 \ \ / /@
  \ V / @
   \_/  @
        @@
           @
 __      __@
 \ \ /\ / /@
  \ V  V / @
   \_/\_/  @
           @@
"#;

pub const PART_09: &'static str = r#"       @
 __  __@
 \ \/ /@
  >  < @
 /_/\_\@
       @@
        @
  _   _ @
 | | | |@
 | |_| |@
  \__, |@
  |___/ @@
      @
  ____@
 |_  /@
  / / @
 /___|@
      @@
    __@
   / /@
  | | @
 < <  @
  | | @
   \_\@@
  _ @
 | |@
 | |@
 | |@
 | |@
 |_|@@
 __   @
 \ \  @
  | | @
   > >@
  | | @
 /_/  @@
  /\/|@
 |/\/ @
   $  @
   $  @
   $  @
      @@
  _   _ @
 (_)_(_)@
   /_\  @
  / _ \ @
 /_/ \_\@
        @@
  _   _ @
 (_)_(_)@
  / _ \ @
 | |_| |@
  \___/ @
        @@
  _   _ @
 (_) (_)@
 | | | |@
 | |_| |@
  \___/ @
        @@
"#;

pub const PART_10: &'static str = r#"  _   _ @
 (_)_(_)@
  / _` |@
 | (_| |@
  \__,_|@
        @@
  _   _ @
 (_)_(_)@
  / _ \ @
 | (_) |@
  \___/ @
        @@
  _   _ @
 (_) (_)@
 | | | |@
 | |_| |@
  \__,_|@
        @@
   ___ @
  / _ \@
 | |/ /@
 | |\ \@
 | ||_/@
 |_|   @@
160  NO-BREAK SPACE
 $@
 $@
 $@
 $@
 $@
 $@@
161  INVERTED EXCLAMATION MARK
  _ @
 (_)@
 | |@
 | |@
 |_|@
    @@
162  CENT SIGN
    _  @
   | | @
  / __)@
 | (__ @
  \   )@
   |_| @@
163  POUND SIGN
    ___  @
   / ,_\ @
 _| |_   @
  | |___ @
 (_,____|@
         @@
164  CURRENCY SIGN
 /\___/\@
 \  _  /@
 | (_) |@
 / ___ \@
 \/   \/@
        @@
165  YEN SIGN
"#;

pub const PART_11: &'static str = r#"  __ __ @
  \ V / @
 |__ __|@
 |__ __|@
   |_|  @
        @@
166  BROKEN BAR
  _ @
 | |@
 |_|@
  _ @
 | |@
 |_|@@
167  SECTION SIGN
    __ @
  _/ _)@
 / \ \ @
 \ \\ \@
  \ \_/@
 (__/  @@
168  DIAERESIS
  _   _ @
 (_) (_)@
  $   $ @
  $   $ @
  $   $ @
        @@
169  COPYRIGHT SIGN
    _____   @
   / ___ \  @
  / / __| \ @
 | | (__   |@
  \ \___| / @
   \_____/  @@
170  FEMININE ORDINAL INDICATOR
  __ _ @
 / _` |@
 \__,_|@
 |____|@
    $  @
       @@
171  LEFT-POINTING DOUBLE ANGLE QUOTATION MARK
   ____@
  / / /@
 / / / @
 \ \ \ @
  \_\_\@
       @@
172  NOT SIGN
        @
  _____ @
 |___  |@
     |_|@
    $   @
        @@
173  SOFT HYPHEN
       @
       @
  ____ @
 |____|@
"#;

pub const PART_12: &'static str = r#"    $  @
       @@
174  REGISTERED SIGN
    _____   @
   / ___ \  @
  / | _ \ \ @
 |  |   /  |@
  \ |_|_\ / @
   \_____/  @@
175  MACRON
  _____ @
 |_____|@
    $   @
    $   @
    $   @
        @@
176  DEGREE SIGN
   __  @
  /  \ @
 | () |@
  \__/ @
    $  @
       @@
177  PLUS-MINUS SIGN
    _   @
  _| |_ @
 |_   _|@
  _|_|_ @
 |_____|@
        @@
178  SUPERSCRIPT TWO
  ___ @
 |_  )@
  / / @
 /___|@
   $  @
      @@
179  SUPERSCRIPT THREE
  ____@
 |__ /@
  |_ \@
 |___/@
   $  @
      @@
180  ACUTE ACCENT
  __@
 /_/@
  $ @
  $ @
  $ @
    @@
181  MICRO SIGN
        @
  _   _ @
 | | | |@
 | |_| |@
 | ._,_|@
 |_|    @@
182  PILCROW SIGN
   _____ @
"#;

pub const PART_13: &'static str = r#"  /     |@
 | (| | |@
  \__ | |@
    |_|_|@
         @@
183  MIDDLE DOT
    @
  _ @
 (_)@
  $ @
  $ @
    @@
184  CEDILLA
    @
    @
    @
    @
  _ @
 )_)@@
185  SUPERSCRIPT ONE
  _ @
 / |@
 | |@
 |_|@
  $ @
    @@
186  MASCULINE ORDINAL INDICATOR
  ___ @
 / _ \@
 \___/@
 |___|@
   $  @
      @@
187  RIGHT-POINTING DOUBLE ANGLE QUOTATION MARK
 ____  @
 \ \ \ @
  \ \ \@
  / / /@
 /_/_/ @
       @@
188  VULGAR FRACTION ONE QUARTER
  _   __    @
 / | / / _  @
 | |/ / | | @
 |_/ /|_  _|@
  /_/   |_| @
            @@
189  VULGAR FRACTION ONE HALF
  _   __   @
 / | / /__ @
 | |/ /_  )@
 |_/ / / / @
  /_/ /___|@
           @@
190  VULGAR FRACTION THREE QUARTERS
  ____  __    @
 |__ / / / _  @
  |_ \/ / | | @
 |___/ /|_  _|@
    /_/   |_| @
"#;

pub const PART_14: &'static str = r#"              @@
191  INVERTED QUESTION MARK
   _  @
  (_) @
  | | @
 / /_ @
 \___|@
      @@
192  LATIN CAPITAL LETTER A WITH GRAVE
   __   @
   \_\  @
   /_\  @
  / _ \ @
 /_/ \_\@
        @@
193  LATIN CAPITAL LETTER A WITH ACUTE
    __  @
   /_/  @
   /_\  @
  / _ \ @
 /_/ \_\@
        @@
194  LATIN CAPITAL LETTER A WITH CIRCUMFLEX
   //\  @
  |/_\| @
   /_\  @
  / _ \ @
 /_/ \_\@
        @@
195  LATIN CAPITAL LETTER A WITH TILDE
   /\/| @
  |/\/  @
   /_\  @
  / _ \ @
 /_/ \_\@
        @@
196  LATIN CAPITAL LETTER A WITH DIAERESIS
  _   _ @
 (_)_(_)@
   /_\  @
  / _ \ @
 /_/ \_\@
        @@
197  LATIN CAPITAL LETTER A WITH RING ABOVE
    _   @
   (o)  @
   /_\  @
  / _ \ @
 /_/ \_\@
        @@
198  LATIN CAPITAL LETTER AE
     ______ @
    /  ____|@
   / _  _|  @
  / __ |___ @
 /_/ |_____|@
            @@
199  LATIN CAPITAL LETTER C WITH CEDILLA
   ____ @
  / ___|@
"#;

pub const PART_15: &'static str = r#" | |    @
 | |___ @
  \____|@
    )_) @@
200  LATIN CAPITAL LETTER E WITH GRAVE
   __   @
  _\_\_ @
 | ____|@
 |  _|_ @
 |_____|@
        @@
201  LATIN CAPITAL LETTER E WITH ACUTE
    __  @
  _/_/_ @
 | ____|@
 |  _|_ @
 |_____|@
        @@
202  LATIN CAPITAL LETTER E WITH CIRCUMFLEX
   //\  @
  |/_\| @
 | ____|@
 |  _|_ @
 |_____|@
        @@
203  LATIN CAPITAL LETTER E WITH DIAERESIS
  _   _ @
 (_)_(_)@
 | ____|@
 |  _|_ @
 |_____|@
        @@
204  LATIN CAPITAL LETTER I WITH GRAVE
  __  @
  \_\ @
 |_ _|@
  | | @
 |___|@
      @@
205  LATIN CAPITAL LETTER I WITH ACUTE
   __ @
  /_/ @
 |_ _|@
  | | @
 |___|@
      @@
206  LATIN CAPITAL LETTER I WITH CIRCUMFLEX
  //\ @
 |/_\|@
 |_ _|@
  | | @
 |___|@
      @@
207  LATIN CAPITAL LETTER I WITH DIAERESIS
  _   _ @
 (_)_(_)@
  |_ _| @
   | |  @
  |___| @
        @@
"#;

pub const PART_16: &'static str = r#"208  LATIN CAPITAL LETTER ETH
    ____  @
   |  _ \ @
  _| |_| |@
 |__ __| |@
   |____/ @
          @@
209  LATIN CAPITAL LETTER N WITH TILDE
   /\/|@
  |/\/ @
 | \| |@
 | .` |@
 |_|\_|@
       @@
210  LATIN CAPITAL LETTER O WITH GRAVE
   __   @
   \_\  @
  / _ \ @
 | |_| |@
  \___/ @
        @@
211  LATIN CAPITAL LETTER O WITH ACUTE
    __  @
   /_/  @
  / _ \ @
 | |_| |@
  \___/ @
        @@
212  LATIN CAPITAL LETTER O WITH CIRCUMFLEX
   //\  @
  |/_\| @
  / _ \ @
 | |_| |@
  \___/ @
        @@
213  LATIN CAPITAL LETTER O WITH TILDE
   /\/| @
  |/\/  @
  / _ \ @
 | |_| |@
  \___/ @
        @@
214  LATIN CAPITAL LETTER O WITH DIAERESIS
  _   _ @
 (_)_(_)@
  / _ \ @
 | |_| |@
  \___/ @
        @@
215  MULTIPLICATION SIGN
     @
     @
 /\/\@
 >  <@
 \/\/@
     @@
216  LATIN CAPITAL LETTER O WITH STROKE
   ____ @
  / _// @
 | |// |@
"#;

pub const PART_17: &'static str = r#" | //| |@
  //__/ @
        @@
217  LATIN CAPITAL LETTER U WITH GRAVE
   __   @
  _\_\_ @
 | | | |@
 | |_| |@
  \___/ @
        @@
218  LATIN CAPITAL LETTER U WITH ACUTE
    __  @
  _/_/_ @
 | | | |@
 | |_| |@
  \___/ @
        @@
219  LATIN CAPITAL LETTER U WITH CIRCUMFLEX
   //\  @
  |/ \| @
 | | | |@
 | |_| |@
  \___/ @
        @@
220  LATIN CAPITAL LETTER U WITH DIAERESIS
  _   _ @
 (_) (_)@
 | | | |@
 | |_| |@
  \___/ @
        @@
221  LATIN CAPITAL LETTER Y WITH ACUTE
    __  @
 __/_/__@
 \ \ / /@
  \ V / @
   |_|  @
        @@
222  LATIN CAPITAL LETTER THORN
  _     @
 | |___ @
 |  __ \@
 |  ___/@
 |_|    @
        @@
223  LATIN SMALL LETTER SHARP S
   ___ @
  / _ \@
 | |/ /@
 | |\ \@
 | ||_/@
 |_|   @@
224  LATIN SMALL LETTER A WITH GRAVE
   __   @
   \_\_ @
  / _` |@
 | (_| |@
  \__,_|@
        @@
225  LATIN SMALL LETTER A WITH ACUTE
"#;

pub const PART_18: &'static str = r#"    __  @
   /_/_ @
  / _` |@
 | (_| |@
  \__,_|@
        @@
226  LATIN SMALL LETTER A WITH CIRCUMFLEX
   //\  @
  |/_\| @
  / _` |@
 | (_| |@
  \__,_|@
        @@
227  LATIN SMALL LETTER A WITH TILDE
   /\/| @
  |/\/_ @
  / _` |@
 | (_| |@
  \__,_|@
        @@
228  LATIN SMALL LETTER A WITH DIAERESIS
  _   _ @
 (_)_(_)@
  / _` |@
 | (_| |@
  \__,_|@
        @@
229  LATIN SMALL LETTER A WITH RING ABOVE
    __  @
   (()) @
  / _ '|@
 | (_| |@
  \__,_|@
        @@
230  LATIN SMALL LETTER AE
           @
   __ ____ @
  / _`  _ \@
 | (_|  __/@
  \__,____|@
           @@
231  LATIN SMALL LETTER C WITH CEDILLA
       @
   ___ @
  / __|@
 | (__ @
  \___|@
   )_) @@
232  LATIN SMALL LETTER E WITH GRAVE
   __  @
   \_\ @
  / _ \@
 |  __/@
  \___|@
       @@
233  LATIN SMALL LETTER E WITH ACUTE
    __ @
   /_/ @
  / _ \@
 |  __/@
"#;

pub const PART_19: &'static str = r#"  \___|@
       @@
234  LATIN SMALL LETTER E WITH CIRCUMFLEX
   //\ @
  |/_\|@
  / _ \@
 |  __/@
  \___|@
       @@
235  LATIN SMALL LETTER E WITH DIAERESIS
  _   _ @
 (_)_(_)@
  / _ \ @
 |  __/ @
  \___| @
        @@
236  LATIN SMALL LETTER I WITH GRAVE
 __ @
 \_\@
 | |@
 | |@
 |_|@
    @@
237  LATIN SMALL LETTER I WITH ACUTE
  __@
 /_/@
 | |@
 | |@
 |_|@
    @@
238  LATIN SMALL LETTER I WITH CIRCUMFLEX
  //\ @
 |/_\|@
  | | @
  | | @
  |_| @
      @@
239  LATIN SMALL LETTER I WITH DIAERESIS
  _   _ @
 (_)_(_)@
   | |  @
   | |  @
   |_|  @
        @@
240  LATIN SMALL LETTER ETH
   /\/\ @
   >  < @
  _\/\ |@
 / __` |@
 \____/ @
        @@
241  LATIN SMALL LETTER N WITH TILDE
   /\/| @
  |/\/  @
 | '_ \ @
 | | | |@
 |_| |_|@
        @@
242  LATIN SMALL LETTER O WITH GRAVE
   __   @
"#;

pub const PART_20: &'static str = r#"   \_\  @
  / _ \ @
 | (_) |@
  \___/ @
        @@
243  LATIN SMALL LETTER O WITH ACUTE
    __  @
   /_/  @
  / _ \ @
 | (_) |@
  \___/ @
        @@
244  LATIN SMALL LETTER O WITH CIRCUMFLEX
   //\  @
  |/_\| @
  / _ \ @
 | (_) |@
  \___/ @
        @@
245  LATIN SMALL LETTER O WITH TILDE
   /\/| @
  |/\/  @
  / _ \ @
 | (_) |@
  \___/ @
        @@
246  LATIN SMALL LETTER O WITH DIAERESIS
  _   _ @
 (_)_(_)@
  / _ \ @
 | (_) |@
  \___/ @
        @@
247  DIVISION SIGN
        @
    _   @
  _(_)_ @
 |_____|@
   (_)  @
        @@
248  LATIN SMALL LETTER O WITH STROKE
         @
   ____  @
  / _//\ @
 | (//) |@
  \//__/ @
         @@
249  LATIN SMALL LETTER U WITH GRAVE
   __   @
  _\_\_ @
 | | | |@
 | |_| |@
  \__,_|@
        @@
250  LATIN SMALL LETTER U WITH ACUTE
    __  @
  _/_/_ @
 | | | |@
 | |_| |@
  \__,_|@
"#;

pub const PART_21: &'static str = r#"        @@
251  LATIN SMALL LETTER U WITH CIRCUMFLEX
   //\  @
  |/ \| @
 | | | |@
 | |_| |@
  \__,_|@
        @@
252  LATIN SMALL LETTER U WITH DIAERESIS
  _   _ @
 (_) (_)@
 | | | |@
 | |_| |@
  \__,_|@
        @@
253  LATIN SMALL LETTER Y WITH ACUTE
    __  @
  _/_/_ @
 | | | |@
 | |_| |@
  \__, |@
  |___/ @@
254  LATIN SMALL LETTER THORN
  _     @
 | |__  @
 | '_ \ @
 | |_) |@
 | .__/ @
 |_|    @@
255  LATIN SMALL LETTER Y WITH DIAERESIS
  _   _ @
 (_) (_)@
 | | | |@
 | |_| |@
  \__, |@
  |___/ @@
0x0100  LATIN CAPITAL LETTER A WITH MACRON
   ____ @
  /___/ @
   /_\  @
  / _ \ @
 /_/ \_\@
        @@
0x0101  LATIN SMALL LETTER A WITH MACRON
    ___ @
   /_ _/@
  / _` |@
 | (_| |@
  \__,_|@
        @@
0x0102  LATIN CAPITAL LETTER A WITH BREVE
  _   _ @
  \\_// @
   /_\  @
  / _ \ @
 /_/ \_\@
        @@
0x0103  LATIN SMALL LETTER A WITH BREVE
   \_/  @
   ___  @
"#;

pub const PART_22: &'static str = r#"  / _` |@
 | (_| |@
  \__,_|@
        @@
0x0104  LATIN CAPITAL LETTER A WITH OGONEK
        @
    _   @
   /_\  @
  / _ \ @
 /_/ \_\@
     (_(@@
0x0105  LATIN SMALL LETTER A WITH OGONEK
        @
   __ _ @
  / _` |@
 | (_| |@
  \__,_|@
     (_(@@
0x0106  LATIN CAPITAL LETTER C WITH ACUTE
     __ @
   _/_/ @
  / ___|@
 | |___ @
  \____|@
        @@
0x0107  LATIN SMALL LETTER C WITH ACUTE
    __ @
   /__/@
  / __|@
 | (__ @
  \___|@
       @@
0x0108  LATIN CAPITAL LETTER C WITH CIRCUMFLEX
     /\ @
   _//\\@
  / ___|@
 | |___ @
  \____|@
        @@
0x0109  LATIN SMALL LETTER C WITH CIRCUMFLEX
    /\ @
   /_\ @
  / __|@
 | (__ @
  \___|@
       @@
0x010A  LATIN CAPITAL LETTER C WITH DOT ABOVE
    []  @
   ____ @
  / ___|@
 | |___ @
  \____|@
        @@
0x010B  LATIN SMALL LETTER C WITH DOT ABOVE
   []  @
   ___ @
  / __|@
 | (__ @
  \___|@
       @@
"#;

pub const PART_23: &'static str = r#"0x010C  LATIN CAPITAL LETTER C WITH CARON
   \\// @
   _\/_ @
  / ___|@
 | |___ @
  \____|@
        @@
0x010D  LATIN SMALL LETTER C WITH CARON
   \\//@
   _\/ @
  / __|@
 | (__ @
  \___|@
       @@
0x010E  LATIN CAPITAL LETTER D WITH CARON
   \\// @
  __\/  @
 |  _ \ @
 | |_| |@
 |____/ @
        @@
0x010F  LATIN SMALL LETTER D WITH CARON
  \/  _ @
   __| |@
  / _` |@
 | (_| |@
  \__,_|@
        @@
0x0110  LATIN CAPITAL LETTER D WITH STROKE
   ____   @
  |_ __ \ @
 /| |/ | |@
 /|_|/_| |@
  |_____/ @
          @@
0x0111  LATIN SMALL LETTER D WITH STROKE
    ---|@
   __| |@
  / _` |@
 | (_| |@
  \__,_|@
        @@
0x0112  LATIN CAPITAL LETTER E WITH MACRON
   ____ @
  /___/ @
 | ____|@
 |  _|_ @
 |_____|@
        @@
0x0113  LATIN SMALL LETTER E WITH MACRON
    ____@
   /_ _/@
  / _ \ @
 |  __/ @
  \___| @
        @@
0x0114  LATIN CAPITAL LETTER E WITH BREVE
  _   _ @
  \\_// @
 | ____|@
"#;

pub const PART_24: &'static str = r#" |  _|_ @
 |_____|@
        @@
0x0115  LATIN SMALL LETTER E WITH BREVE
  \\  //@
    --  @
  / _ \ @
 |  __/ @
  \___| @
        @@
0x0116  LATIN CAPITAL LETTER E WITH DOT ABOVE
    []  @
  _____ @
 | ____|@
 |  _|_ @
 |_____|@
        @@
0x0117  LATIN SMALL LETTER E WITH DOT ABOVE
    [] @
    __ @
  / _ \@
 |  __/@
  \___|@
       @@
0x0118  LATIN CAPITAL LETTER E WITH OGONEK
        @
  _____ @
 | ____|@
 |  _|_ @
 |_____|@
    (__(@@
0x0119  LATIN SMALL LETTER E WITH OGONEK
       @
   ___ @
  / _ \@
 |  __/@
  \___|@
    (_(@@
0x011A  LATIN CAPITAL LETTER E WITH CARON
   \\// @
  __\/_ @
 | ____|@
 |  _|_ @
 |_____|@
        @@
0x011B  LATIN SMALL LETTER E WITH CARON
   \\//@
    \/ @
  / _ \@
 |  __/@
  \___|@
       @@
0x011C  LATIN CAPITAL LETTER G WITH CIRCUMFLEX
   _/\_ @
  / ___|@
 | |  _ @
 | |_| |@
  \____|@
        @@
0x011D  LATIN SMALL LETTER G WITH CIRCUMFLEX
"#;

pub const PART_25: &'static str = r#"     /\ @
   _/_ \@
  / _` |@
 | (_| |@
  \__, |@
  |___/ @@
0x011E  LATIN CAPITAL LETTER G WITH BREVE
   _\/_ @
  / ___|@
 | |  _ @
 | |_| |@
  \____|@
        @@
0x011F  LATIN SMALL LETTER G WITH BREVE
  \___/ @
   __ _ @
  / _` |@
 | (_| |@
  \__, |@
  |___/ @@
0x0120  LATIN CAPITAL LETTER G WITH DOT ABOVE
   _[]_ @
  / ___|@
 | |  _ @
 | |_| |@
  \____|@
        @@
0x0121  LATIN SMALL LETTER G WITH DOT ABOVE
   []   @
   __ _ @
  / _` |@
 | (_| |@
  \__, |@
  |___/ @@
0x0122  LATIN CAPITAL LETTER G WITH CEDILLA
   ____ @
  / ___|@
 | |  _ @
 | |_| |@
  \____|@
   )__) @@
0x0123  LATIN SMALL LETTER G WITH CEDILLA
        @
   __ _ @
  / _` |@
 | (_| |@
  \__, |@
  |_))))@@
0x0124  LATIN CAPITAL LETTER H WITH CIRCUMFLEX
  _/ \_ @
 | / \ |@
 | |_| |@
 |  _  |@
 |_| |_|@
        @@
0x0125  LATIN SMALL LETTER H WITH CIRCUMFLEX
  _  /\ @
 | |//\ @
 | '_ \ @
 | | | |@
"#;

pub const PART_26: &'static str = r#" |_| |_|@
        @@
0x0126  LATIN CAPITAL LETTER H WITH STROKE
  _   _ @
 | |=| |@
 | |_| |@
 |  _  |@
 |_| |_|@
        @@
0x0127  LATIN SMALL LETTER H WITH STROKE
  _     @
 |=|__  @
 | '_ \ @
 | | | |@
 |_| |_|@
        @@
0x0128  LATIN CAPITAL LETTER I WITH TILDE
  /\//@
 |_ _|@
  | | @
  | | @
 |___|@
      @@
0x0129  LATIN SMALL LETTER I WITH TILDE
    @
 /\/@
 | |@
 | |@
 |_|@
    @@
0x012A  LATIN CAPITAL LETTER I WITH MACRON
 /___/@
 |_ _|@
  | | @
  | | @
 |___|@
      @@
0x012B  LATIN SMALL LETTER I WITH MACRON
  ____@
 /___/@
  | | @
  | | @
  |_| @
      @@
0x012C  LATIN CAPITAL LETTER I WITH BREVE
  \__/@
 |_ _|@
  | | @
  | | @
 |___|@
      @@
0x012D  LATIN SMALL LETTER I WITH BREVE
    @
 \_/@
 | |@
 | |@
 |_|@
    @@
0x012E  LATIN CAPITAL LETTER I WITH OGONEK
  ___ @
"#;

pub const PART_27: &'static str = r#" |_ _|@
  | | @
  | | @
 |___|@
  (__(@@
0x012F  LATIN SMALL LETTER I WITH OGONEK
  _  @
 (_) @
 | | @
 | | @
 |_|_@
  (_(@@
0x0130  LATIN CAPITAL LETTER I WITH DOT ABOVE
  _[] @
 |_ _|@
  | | @
  | | @
 |___|@
      @@
0x0131  LATIN SMALL LETTER DOTLESS I
    @
  _ @
 | |@
 | |@
 |_|@
    @@
0x0132  LATIN CAPITAL LIGATURE IJ
  ___  _ @
 |_ _|| |@
  | | | |@
  | |_| |@
 |__|__/ @
         @@
0x0133  LATIN SMALL LIGATURE IJ
  _   _ @
 (_) (_)@
 | | | |@
 | | | |@
 |_|_/ |@
   |__/ @@
0x0134  LATIN CAPITAL LETTER J WITH CIRCUMFLEX
      /\ @
     /_\|@
  _  | | @
 | |_| | @
  \___/  @
         @@
0x0135  LATIN SMALL LETTER J WITH CIRCUMFLEX
    /\@
   /_\@
   | |@
   | |@
  _/ |@
 |__/ @@
0x0136  LATIN CAPITAL LETTER K WITH CEDILLA
  _  _  @
 | |/ / @
 | ' /  @
 | . \  @
 |_|\_\ @
"#;

pub const PART_28: &'static str = r#"    )__)@@
0x0137  LATIN SMALL LETTER K WITH CEDILLA
  _    @
 | | __@
 | |/ /@
 |   < @
 |_|\_\@
    )_)@@
0x0138  LATIN SMALL LETTER KRA
       @
  _ __ @
 | |/ \@
 |   < @
 |_|\_\@
       @@
0x0139  LATIN CAPITAL LETTER L WITH ACUTE
  _   //@
 | | // @
 | |    @
 | |___ @
 |_____|@
        @@
0x013A  LATIN SMALL LETTER L WITH ACUTE
  //@
 | |@
 | |@
 | |@
 |_|@
    @@
0x013B  LATIN CAPITAL LETTER L WITH CEDILLA
  _     @
 | |    @
 | |    @
 | |___ @
 |_____|@
    )__)@@
0x013C  LATIN SMALL LETTER L WITH CEDILLA
  _   @
 | |  @
 | |  @
 | |  @
 |_|  @
   )_)@@
0x013D  LATIN CAPITAL LETTER L WITH CARON
  _ \\//@
 | | \/ @
 | |    @
 | |___ @
 |_____|@
        @@
0x013E  LATIN SMALL LETTER L WITH CARON
  _ \\//@
 | | \/ @
 | |    @
 | |    @
 |_|    @
        @@
0x013F  LATIN CAPITAL LETTER L WITH MIDDLE DOT
  _     @
 | |    @
"#;

pub const PART_29: &'static str = r#" | | [] @
 | |___ @
 |_____|@
        @@
0x0140  LATIN SMALL LETTER L WITH MIDDLE DOT
  _    @
 | |   @
 | | []@
 | |   @
 |_|   @
       @@
0x0141  LATIN CAPITAL LETTER L WITH STROKE
  __    @
 | //   @
 |//|   @
 // |__ @
 |_____|@
        @@
0x0142  LATIN SMALL LETTER L WITH STROKE
  _ @
 | |@
 |//@
 //|@
 |_|@
    @@
0x0143  LATIN CAPITAL LETTER N WITH ACUTE
  _/ /_ @
 | \ | |@
 |  \| |@
 | |\  |@
 |_| \_|@
        @@
0x0144  LATIN SMALL LETTER N WITH ACUTE
     _  @
  _ /_/ @
 | '_ \ @
 | | | |@
 |_| |_|@
        @@
0x0145  LATIN CAPITAL LETTER N WITH CEDILLA
  _   _ @
 | \ | |@
 |  \| |@
 | |\  |@
 |_| \_|@
 )_)    @@
0x0146  LATIN SMALL LETTER N WITH CEDILLA
        @
  _ __  @
 | '_ \ @
 | | | |@
 |_| |_|@
 )_)    @@
0x0147  LATIN CAPITAL LETTER N WITH CARON
  _\/ _ @
 | \ | |@
 |  \| |@
 | |\  |@
 |_| \_|@
        @@
"#;

pub const PART_30: &'static str = r#"0x0148  LATIN SMALL LETTER N WITH CARON
  \\//  @
  _\/_  @
 | '_ \ @
 | | | |@
 |_| |_|@
        @@
0x0149  LATIN SMALL LETTER N PRECEDED BY APOSTROPHE
          @
  _  __   @
 ( )| '_\ @
 |/| | | |@
   |_| |_|@
          @@
0x014A  LATIN CAPITAL LETTER ENG
  _   _ @
 | \ | |@
 |  \| |@
 | |\  |@
 |_| \ |@
     )_)@@
0x014B  LATIN SMALL LETTER ENG
  _ __  @
 | '_ \ @
 | | | |@
 |_| | |@
     | |@
    |__ @@
0x014C  LATIN CAPITAL LETTER O WITH MACRON
   ____ @
  /_ _/ @
  / _ \ @
 | (_) |@
  \___/ @
        @@
0x014D  LATIN SMALL LETTER O WITH MACRON
   ____ @
  /_ _/ @
  / _ \ @
 | (_) |@
  \___/ @
        @@
0x014E  LATIN CAPITAL LETTER O WITH BREVE
  \   / @
   _-_  @
  / _ \ @
 | |_| |@
  \___/ @
        @@
0x014F  LATIN SMALL LETTER O WITH BREVE
  \   / @
   _-_  @
  / _ \ @
 | |_| |@
  \___/ @
        @@
0x0150  LATIN CAPITAL LETTER O WITH DOUBLE ACUTE
    ___ @
   /_/_/@
  / _ \ @
"#;

pub const PART_31: &'static str = r#" | |_| |@
  \___/ @
        @@
0x0151  LATIN SMALL LETTER O WITH DOUBLE ACUTE
    ___ @
   /_/_/@
  / _ \ @
 | |_| |@
  \___/ @
        @@
0x0152  LATIN CAPITAL LIGATURE OE
   ___  ___ @
  / _ \| __|@
 | | | |  | @
 | |_| | |__@
  \___/|____@
            @@
0x0153  LATIN SMALL LIGATURE OE
             @
   ___   ___ @
  / _ \ / _ \@
 | (_) |  __/@
  \___/ \___|@
             @@
0x0154  LATIN CAPITAL LETTER R WITH ACUTE
  _/_/  @
 |  _ \ @
 | |_) |@
 |  _ < @
 |_| \_\@
        @@
0x0155  LATIN SMALL LETTER R WITH ACUTE
     __@
  _ /_/@
 | '__|@
 | |   @
 |_|   @
       @@
0x0156  LATIN CAPITAL LETTER R WITH CEDILLA
  ____  @
 |  _ \ @
 | |_) |@
 |  _ < @
 |_| \_\@
 )_)    @@
0x0157  LATIN SMALL LETTER R WITH CEDILLA
       @
  _ __ @
 | '__|@
 | |   @
 |_|   @
   )_) @@
0x0158  LATIN CAPITAL LETTER R WITH CARON
  _\_/  @
 |  _ \ @
 | |_) |@
 |  _ < @
 |_| \_\@
        @@
0x0159  LATIN SMALL LETTER R WITH CARON
"#;

pub const PART_32: &'static str = r#"  \\// @
  _\/_ @
 | '__|@
 | |   @
 |_|   @
       @@
0x015A  LATIN CAPITAL LETTER S WITH ACUTE
  _/_/  @
 / ___| @
 \___ \ @
  ___) |@
 |____/ @
        @@
0x015B  LATIN SMALL LETTER S WITH ACUTE
    __@
  _/_/@
 / __|@
 \__ \@
 |___/@
      @@
0x015C  LATIN CAPITAL LETTER S WITH CIRCUMFLEX
  _/\_  @
 / ___| @
 \___ \ @
  ___) |@
 |____/ @
        @@
0x015D  LATIN SMALL LETTER S WITH CIRCUMFLEX
      @
  /_\_@
 / __|@
 \__ \@
 |___/@
      @@
0x015E  LATIN CAPITAL LETTER S WITH CEDILLA
  ____  @
 / ___| @
 \___ \ @
  ___) |@
 |____/ @
    )__)@@
0x015F  LATIN SMALL LETTER S WITH CEDILLA
      @
  ___ @
 / __|@
 \__ \@
 |___/@
   )_)@@
0x0160  LATIN CAPITAL LETTER S WITH CARON
  _\_/  @
 / ___| @
 \___ \ @
  ___) |@
 |____/ @
        @@
0x0161  LATIN SMALL LETTER S WITH CARON
  \\//@
  _\/ @
 / __|@
 \__ \@
"#;

pub const PART_33: &'static str = r#" |___/@
      @@
0x0162  LATIN CAPITAL LETTER T WITH CEDILLA
  _____ @
 |_   _|@
   | |  @
   | |  @
   |_|  @
    )__)@@
0x0163  LATIN SMALL LETTER T WITH CEDILLA
  _   @
 | |_ @
 | __|@
 | |_ @
  \__|@
   )_)@@
0x0164  LATIN CAPITAL LETTER T WITH CARON
  _____ @
 |_   _|@
   | |  @
   | |  @
   |_|  @
        @@
0x0165  LATIN SMALL LETTER T WITH CARON
  \/  @
 | |_ @
 | __|@
 | |_ @
  \__|@
      @@
0x0166  LATIN CAPITAL LETTER T WITH STROKE
  _____ @
 |_   _|@
   | |  @
  -|-|- @
   |_|  @
        @@
0x0167  LATIN SMALL LETTER T WITH STROKE
  _   @
 | |_ @
 | __|@
 |-|_ @
  \__|@
      @@
0x0168  LATIN CAPITAL LETTER U WITH TILDE
        @
  _/\/_ @
 | | | |@
 | |_| |@
  \___/ @
        @@
0x0169  LATIN SMALL LETTER U WITH TILDE
        @
  _/\/_ @
 | | | |@
 | |_| |@
  \__,_|@
        @@
0x016A  LATIN CAPITAL LETTER U WITH MACRON
   ____ @
"#;

pub const PART_34: &'static str = r#"  /__ _/@
 | | | |@
 | |_| |@
  \___/ @
        @@
0x016B  LATIN SMALL LETTER U WITH MACRON
   ____ @
  / _  /@
 | | | |@
 | |_| |@
  \__,_|@
        @@
0x016C  LATIN CAPITAL LETTER U WITH BREVE
        @
   \_/_ @
 | | | |@
 | |_| |@
  \____|@
        @@
0x016D  LATIN SMALL LETTER U WITH BREVE
        @
   \_/_ @
 | | | |@
 | |_| |@
  \__,_|@
        @@
0x016E  LATIN CAPITAL LETTER U WITH RING ABOVE
    O   @
  __  _ @
 | | | |@
 | |_| |@
  \___/ @
        @@
0x016F  LATIN SMALL LETTER U WITH RING ABOVE
    O   @
  __ __ @
 | | | |@
 | |_| |@
  \__,_|@
        @@
0x0170  LATIN CAPITAL LETTER U WITH DOUBLE ACUTE
   -- --@
  /_//_/@
 | | | |@
 | |_| |@
  \___/ @
        @@
0x0171  LATIN SMALL LETTER U WITH DOUBLE ACUTE
    ____@
  _/_/_/@
 | | | |@
 | |_| |@
  \__,_|@
        @@
0x0172  LATIN CAPITAL LETTER U WITH OGONEK
  _   _ @
 | | | |@
 | | | |@
 | |_| |@
  \___/ @
"#;

pub const PART_35: &'static str = r#"    (__(@@
0x0173  LATIN SMALL LETTER U WITH OGONEK
        @
  _   _ @
 | | | |@
 | |_| |@
  \__,_|@
     (_(@@
0x0174  LATIN CAPITAL LETTER W WITH CIRCUMFLEX
 __    /\  __@
 \ \  //\\/ /@
  \ \ /\ / / @
   \ V  V /  @
    \_/\_/   @
             @@
0x0175  LATIN SMALL LETTER W WITH CIRCUMFLEX
      /\   @
 __  //\\__@
 \ \ /\ / /@
  \ V  V / @
   \_/\_/  @
           @@
0x0176  LATIN CAPITAL LETTER Y WITH CIRCUMFLEX
    /\  @
 __//\\ @
 \ \ / /@
  \ V / @
   |_|  @
        @@
0x0177  LATIN SMALL LETTER Y WITH CIRCUMFLEX
    /\  @
   //\\ @
 | | | |@
 | |_| |@
  \__, |@
  |___/ @@
0x0178  LATIN CAPITAL LETTER Y WITH DIAERESIS
  []  []@
 __    _@
 \ \ / /@
  \ V / @
   |_|  @
        @@
0x0179  LATIN CAPITAL LETTER Z WITH ACUTE
  __/_/@
 |__  /@
   / / @
  / /_ @
 /____|@
       @@
0x017A  LATIN SMALL LETTER Z WITH ACUTE
    _ @
  _/_/@
 |_  /@
  / / @
 /___|@
      @@
0x017B  LATIN CAPITAL LETTER Z WITH DOT ABOVE
  __[]_@
 |__  /@
"#;

pub const PART_36: &'static str = r#"   / / @
  / /_ @
 /____|@
       @@
0x017C  LATIN SMALL LETTER Z WITH DOT ABOVE
   [] @
  ____@
 |_  /@
  / / @
 /___|@
      @@
0x017D  LATIN CAPITAL LETTER Z WITH CARON
  _\_/_@
 |__  /@
   / / @
  / /_ @
 /____|@
       @@
0x017E  LATIN SMALL LETTER Z WITH CARON
  \\//@
  _\/_@
 |_  /@
  / / @
 /___|@
      @@
0x017F  LATIN SMALL LETTER LONG S
     __ @
    / _|@
 |-| |  @
 |-| |  @
   |_|  @
        @@
0x02C7  CARON
 \\//@
  \/ @
    $@
    $@
    $@
    $@@
0x02D8  BREVE
 \\_//@
  \_/ @
     $@
     $@
     $@
     $@@
0x02D9  DOT ABOVE
 []@
  $@
  $@
  $@
  $@
  $@@
0x02DB  OGONEK
    $@
    $@
    $@
    $@
    $@
 )_) @@
"#;

pub const PART_37: &'static str = r#"0x02DD  DOUBLE ACUTE ACCENT
  _ _ @
 /_/_/@
     $@
     $@
     $@
     $@@
"#;

/// The parts of the standard font's `.flf` text, in order.
pub open spec fn standard_parts() -> Seq<Seq<char>> {
    seq![
        PART_00@,
        PART_01@,
        PART_02@,
        PART_03@,
        PART_04@,
        PART_05@,
        PART_06@,
        PART_07@,
        PART_08@,
        PART_09@,
        PART_10@,
        PART_11@,
        PART_12@,
        PART_13@,
        PART_14@,
        PART_15@,
        PART_16@,
        PART_17@,
        PART_18@,
        PART_19@,
        PART_20@,
        PART_21@,
        PART_22@,
        PART_23@,
        PART_24@,
        PART_25@,
        PART_26@,
        PART_27@,
        PART_28@,
        PART_29@,
        PART_30@,
        PART_31@,
        PART_32@,
        PART_33@,
        PART_34@,
        PART_35@,
        PART_36@,
        PART_37@,
    ]
}

/// The `.flf` text of the standard font.
pub open spec fn standard_text() -> Seq<char> {
    crate::fonts::join(standard_parts(), Seq::empty())
}

/// The standard font's `.flf` text.
pub fn standard_flf() -> (s: String)
    ensures
        s@ == standard_text(),
{
    let parts: Vec<&'static str> = vec![
        PART_00,
        PART_01,
        PART_02,
        PART_03,
        PART_04,
        PART_05,
        PART_06,
        PART_07,
        PART_08,
        PART_09,
        PART_10,
        PART_11,
        PART_12,
        PART_13,
        PART_14,
        PART_15,
        PART_16,
        PART_17,
        PART_18,
        PART_19,
        PART_20,
        PART_21,
        PART_22,
        PART_23,
        PART_24,
        PART_25,
        PART_26,
        PART_27,
        PART_28,
        PART_29,
        PART_30,
        PART_31,
        PART_32,
        PART_33,
        PART_34,
        PART_35,
        PART_36,
        PART_37,
    ];
    assert(parts@.map_values(|p: &str| p@) =~= standard_parts());
    let mut s = String::new();
    for i in 0..parts.len()
        invariant
            parts@.map_values(|p: &str| p@) == standard_parts(),
            s@ == crate::fonts::join(standard_parts().take(i as int), Seq::empty()),
    {
        s.append(parts[i]);
        assert(standard_parts().take(i + 1).drop_last() =~= standard_parts().take(i as int));
        assert(standard_parts()[i as int] == parts@[i as int]@);
        if i == 0 {
            assert(standard_parts().take(1) =~= seq![standard_parts()[0]]);
        } else {
            assert(s@ =~= crate::fonts::join(standard_parts().take(i as int), Seq::empty()) + Seq::<char>::empty()
                + standard_parts()[i as int]);
        }
    }
    assert(standard_parts().take(parts.len() as int) =~= standard_parts());
    s
}

} // verus!
